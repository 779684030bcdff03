use pulse::blocklist::Blocklist;
use pulse::record::derive_document;
use pulse::record::IndexableDocument;
use pulse::record::InputRecord;
use tantivy::schema::Schema;
use tantivy::schema::FAST;
use tantivy::schema::INDEXED;
use tantivy::schema::STORED;
use tantivy::schema::STRING;
use tantivy::schema::Value;
use tantivy::schema::TEXT;
use tantivy::DocAddress;
use tantivy::Index;
use tantivy::IndexWriter;
use tantivy::TantivyDocument;

/// The document schema of the job's index: `content` is searchable
/// but not stored, every other field is stored.
fn job_schema() -> Schema {
    let mut builder = Schema::builder();
    builder.add_text_field("url", TEXT | STORED);
    builder.add_text_field("title", TEXT | STORED);
    builder.add_text_field("content", TEXT);
    builder.add_text_field("preview", STRING | STORED);
    builder.add_text_field("language", STRING | STORED | FAST);
    builder.add_text_field("meta_tags", TEXT | STORED);
    builder.add_bool_field("nsfw", INDEXED | STORED | FAST);
    builder.build()
}

fn to_tantivy(schema: &Schema, doc: &IndexableDocument) -> TantivyDocument {
    let mut t = TantivyDocument::new();
    t.add_text(schema.get_field("url").unwrap(), &doc.url);
    t.add_text(schema.get_field("title").unwrap(), &doc.title);
    t.add_text(schema.get_field("content").unwrap(), &doc.content);
    t.add_text(schema.get_field("preview").unwrap(), &doc.preview);
    t.add_text(schema.get_field("language").unwrap(), &doc.language);
    t.add_text(schema.get_field("meta_tags").unwrap(), &doc.meta_tags);
    t.add_bool(schema.get_field("nsfw").unwrap(), doc.nsfw);
    t
}

#[test]
fn stored_fields_survive_a_commit_unchanged() {
    let bl = Blocklist::from_text("bad.example");
    let rec = InputRecord {
        url: "http://www.bad.example/page".to_string(),
        title: Some("A Title".to_string()),
        content_text: Some(format!("  {}", "x".repeat(600))),
        meta_content: Some("meta words".to_string()),
        language: None,
    };
    let doc = derive_document(&rec, &bl);

    let schema = job_schema();
    let index = Index::create_in_ram(schema.clone());
    let mut writer: IndexWriter<TantivyDocument> = index.writer(50_000_000).unwrap();
    writer.add_document(to_tantivy(&schema, &doc)).unwrap();
    writer.commit().unwrap();

    let reader = index.reader().unwrap();
    let searcher = reader.searcher();
    let stored: TantivyDocument = searcher.doc(DocAddress::new(0, 0)).unwrap();

    let text_of = |name: &str| {
        stored
            .get_first(schema.get_field(name).unwrap())
            .and_then(|v| v.as_str().map(str::to_string))
    };
    assert_eq!(text_of("url").unwrap(), doc.url);
    assert_eq!(text_of("title").unwrap(), "A Title");
    assert_eq!(text_of("preview").unwrap(), format!("{}...", "x".repeat(500)));
    assert_eq!(text_of("language").unwrap(), "en");
    assert_eq!(text_of("meta_tags").unwrap(), "meta words");
    let nsfw = stored
        .get_first(schema.get_field("nsfw").unwrap())
        .and_then(|v| v.as_bool())
        .unwrap();
    assert!(nsfw);
    // `content` is indexed only, not stored: nothing comes back.
    assert!(stored.get_first(schema.get_field("content").unwrap()).is_none());
}
