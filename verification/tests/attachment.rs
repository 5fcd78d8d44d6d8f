use lopdf::{Dictionary, Document, Object, Stream};
use orai::attachment::{
    attachment_filename, attachment_kind, extract_text_from_content, load_attachment,
    parse_attachments_from_text, path_extension, pdf_page_contents, AttachmentKind, ContentPart,
    FileData,
};

fn text(p: &ContentPart) -> &str {
    match p {
        ContentPart::Text { text } => text,
        ContentPart::ImageUrl { .. } => panic!("expected text"),
    }
}

fn url(p: &ContentPart) -> &str {
    match p {
        ContentPart::ImageUrl { url } => url,
        ContentPart::Text { .. } => panic!("expected image"),
    }
}

#[test]
fn kinds_follow_the_lowercased_extension() {
    assert_eq!(attachment_kind("photo.PNG"), AttachmentKind::Image);
    assert_eq!(attachment_kind("a/b/pic.webp"), AttachmentKind::Image);
    assert_eq!(attachment_kind("report.Pdf"), AttachmentKind::Pdf);
    assert_eq!(attachment_kind("src/main.rs"), AttachmentKind::Text);
    assert_eq!(attachment_kind("notes.md"), AttachmentKind::Text);
    assert_eq!(attachment_kind("archive.zip"), AttachmentKind::Other);
    assert_eq!(attachment_kind("Makefile"), AttachmentKind::Other);
    assert_eq!(attachment_kind(".gitignore"), AttachmentKind::Other);
    assert_eq!(attachment_kind("x.tar.GZ"), AttachmentKind::Other);
}

#[test]
fn extension_is_what_follows_the_last_dot() {
    assert_eq!(path_extension("a/b.TXT"), "txt");
    assert_eq!(path_extension(".bashrc"), "");
    assert_eq!(path_extension("dir.d/file"), "");
    assert_eq!(path_extension("x.y.Z"), "z");
    assert_eq!(path_extension("name."), "");
}

#[test]
fn filename_is_the_last_component_or_the_path() {
    assert_eq!(attachment_filename("/tmp/a/b.txt"), "b.txt");
    assert_eq!(attachment_filename("b.txt"), "b.txt");
    assert_eq!(attachment_filename("dir/sub/"), "sub");
    assert_eq!(attachment_filename(".."), "..");
    assert_eq!(attachment_filename("/"), "/");
}

#[test]
fn missing_file_is_an_error() {
    let e = load_attachment("nope.txt", FileData::Missing).unwrap_err();
    assert_eq!(e, "File not found: nope.txt");
}

#[test]
fn text_file_is_framed() {
    let a = load_attachment("dir/notes.md", FileData::Bytes(b"hi\nthere".to_vec())).unwrap();
    assert_eq!(a.filename, "notes.md");
    assert_eq!(a.parts.len(), 1);
    assert_eq!(
        text(&a.parts[0]),
        "--- Attachment: dir/notes.md ---\nhi\nthere\n--- End Attachment ---"
    );
}

#[test]
fn text_file_that_is_not_utf8_fails() {
    let e = load_attachment("a.txt", FileData::Bytes(vec![0xff, 0xfe])).unwrap_err();
    assert_eq!(e, "Failed to read text file");
}

#[test]
fn image_is_a_base64_data_url() {
    let a = load_attachment("p.png", FileData::Bytes(vec![1, 2, 3])).unwrap();
    assert_eq!(a.filename, "p.png");
    assert_eq!(url(&a.parts[0]), "data:image/png;base64,AQID");
    let j = load_attachment("p.jpg", FileData::Bytes(b"hello".to_vec())).unwrap();
    assert_eq!(url(&j.parts[0]), "data:image/jpeg;base64,aGVsbG8=");
}

#[test]
fn unknown_file_is_sent_as_octet_stream() {
    let a = load_attachment("blob.bin", FileData::Bytes(vec![0])).unwrap();
    assert_eq!(url(&a.parts[0]), "data:application/octet-stream;base64,AA==");
}

#[test]
fn read_failures_name_the_kind() {
    assert_eq!(
        load_attachment("p.gif", FileData::Unreadable).unwrap_err(),
        "Failed to read image file"
    );
    assert_eq!(
        load_attachment("p.toml", FileData::Unreadable).unwrap_err(),
        "Failed to read text file"
    );
    assert_eq!(
        load_attachment("p.bin", FileData::Unreadable).unwrap_err(),
        "Failed to read file"
    );
    assert_eq!(
        load_attachment("p.pdf", FileData::PdfUnloadable).unwrap_err(),
        "Failed to load PDF with lopdf"
    );
}

#[test]
fn rendered_pdf_pages_are_named_and_sent_as_png() {
    let a = load_attachment("doc.pdf", FileData::PdfPages(vec![vec![1], vec![2]])).unwrap();
    assert_eq!(a.parts.len(), 4);
    assert_eq!(text(&a.parts[0]), "--- PDF Page 1 of doc.pdf ---");
    assert_eq!(url(&a.parts[1]), "data:image/png;base64,AQ==");
    assert_eq!(text(&a.parts[2]), "--- PDF Page 2 of doc.pdf ---");
    assert_eq!(url(&a.parts[3]), "data:image/png;base64,Ag==");
}

#[test]
fn pdf_text_keeps_readable_pages() {
    let pages = vec![
        (1, Some(b"BT\n(Hello)\n(World)\nET".to_vec())),
        (2, None),
        (3, Some(vec![0xff])),
        (4, Some(b"(x)".to_vec())),
    ];
    let a = load_attachment("doc.pdf", FileData::PdfText(pages)).unwrap();
    assert_eq!(a.parts.len(), 1);
    assert_eq!(
        text(&a.parts[0]),
        "--- Page 1 ---\nHello World \n\n--- Page 4 ---\nx \n\n"
    );
}

#[test]
fn pdf_without_text_says_so() {
    let a = load_attachment("doc.pdf", FileData::PdfText(vec![])).unwrap();
    assert_eq!(
        text(&a.parts[0]),
        "(No text could be extracted from PDF: doc.pdf)"
    );
}

#[test]
fn content_stream_text_is_the_parenthesised_lines() {
    assert_eq!(extract_text_from_content("(a)\nx\n(b c)\r\n()"), "a b c  ");
    assert_eq!(extract_text_from_content("("), "");
    assert_eq!(extract_text_from_content(""), "");
}

#[test]
fn unreadable_pdf_bytes_load_nothing() {
    assert!(pdf_page_contents(b"not a pdf").is_none());
}

#[test]
fn plus_references_become_attachments() {
    let (clean, paths) =
        parse_attachments_from_text("Explain this +diagram.png and +notes.md").unwrap();
    assert_eq!(clean, "Explain this  and");
    assert_eq!(paths, vec!["diagram.png".to_string(), "notes.md".to_string()]);
}

#[test]
fn text_without_references_is_trimmed() {
    let (clean, paths) = parse_attachments_from_text("  hello + world  ").unwrap();
    assert_eq!(clean, "hello + world");
    assert!(paths.is_empty());
    let (c2, p2) = parse_attachments_from_text("see +src/lib.rs").unwrap();
    assert_eq!(c2, "see");
    assert_eq!(p2, vec!["src/lib.rs".to_string()]);
}

fn one_page_pdf(content: &[u8]) -> Vec<u8> {
    let mut doc = Document::with_version("1.5");
    let pages_id = doc.new_object_id();
    let content_id = doc.add_object(Stream::new(Dictionary::new(), content.to_vec()));
    let mut page = Dictionary::new();
    page.set("Type", Object::Name(b"Page".to_vec()));
    page.set("Parent", Object::Reference(pages_id));
    page.set("Contents", Object::Reference(content_id));
    let page_id = doc.add_object(page);
    let mut pages = Dictionary::new();
    pages.set("Type", Object::Name(b"Pages".to_vec()));
    pages.set("Kids", Object::Array(vec![Object::Reference(page_id)]));
    pages.set("Count", Object::Integer(1));
    doc.objects.insert(pages_id, Object::Dictionary(pages));
    let mut catalog = Dictionary::new();
    catalog.set("Type", Object::Name(b"Catalog".to_vec()));
    catalog.set("Pages", Object::Reference(pages_id));
    let catalog_id = doc.add_object(catalog);
    doc.trailer.set("Root", Object::Reference(catalog_id));
    let mut bytes = Vec::new();
    doc.save_to(&mut bytes).unwrap();
    bytes
}

#[test]
fn pdf_pages_are_read_with_their_content() {
    let bytes = one_page_pdf(b"BT\n(Hello)\nET");
    let pages = pdf_page_contents(&bytes).unwrap();
    assert_eq!(pages.len(), 1);
    assert_eq!(pages[0].0, 1);
    let a = load_attachment("doc.pdf", FileData::PdfText(pages)).unwrap();
    assert_eq!(text(&a.parts[0]), "--- Page 1 ---\nHello \n\n");
}
