//! One crawl record: the shape of a parsed JSONL line, and the
//! derivation of the indexable document from it.

use vstd::prelude::*;

verus! {

use vstd::string::StringExecFns;
use crate::blocklist::Blocklist;
use crate::blocklist::is_nsfw;
use crate::blocklist::is_nsfw_domain;
use crate::blocklist::spec_is_nsfw_domain;
use crate::text::generate_preview;
use crate::text::spec_preview;

/// The fields of one record line, as mathematical values.
pub ghost struct RecordModel {
    pub url: Seq<char>,
    pub title: Option<Seq<char>>,
    pub content_text: Option<Seq<char>>,
    pub meta_content: Option<Seq<char>>,
    pub language: Option<Seq<char>>,
}

/// One structurally parsed JSONL line: `url` is required, everything
/// else is optional.
pub struct InputRecord {
    pub url: String,
    pub title: Option<String>,
    pub content_text: Option<String>,
    pub meta_content: Option<String>,
    pub language: Option<String>,
}

impl View for InputRecord {
    type V = RecordModel;

    open spec fn view(&self) -> RecordModel {
        RecordModel {
            url: self.url@,
            title: self.title.deep_view(),
            content_text: self.content_text.deep_view(),
            meta_content: self.meta_content.deep_view(),
            language: self.language.deep_view(),
        }
    }
}

/// What serde_json's parse of one record line yields: `None` when the
/// line is not a JSON object carrying a string `url` member,
/// otherwise the string members of the object. A function of the line
/// alone.
pub uninterp spec fn parse_of(line: Seq<char>) -> Option<RecordModel>;

/// The view of an optional record, for relating the parse wrapper's
/// result to `parse_of`.
pub open spec fn opt_record_view(r: Option<InputRecord>) -> Option<RecordModel> {
    match r {
        Some(rec) => Some(rec@),
        None => None,
    }
}

/// Relies on `serde_json::from_str` and `serde_json::Value`'s
/// accessors: the line is parsed as JSON; a syntax error, a
/// non-object or a missing or non-string `url` member rejects the
/// line; each optional member is taken when it is present as a
/// string. The result depends on the line alone.
#[verifier::external_body]
pub(crate) fn parse_record_line(line: &str) -> (r: Option<InputRecord>)
    ensures
        opt_record_view(r) == parse_of(line@),
{
    let v: serde_json::Value = match serde_json::from_str(line) {
        Ok(v) => v,
        Err(_) => return None,
    };
    let url = match v.get("url").and_then(serde_json::Value::as_str) {
        Some(u) => u.to_string(),
        None => return None,
    };
    let title = v.get("title").and_then(serde_json::Value::as_str).map(str::to_string);
    let content_text = v.get("content_text").and_then(serde_json::Value::as_str).map(str::to_string);
    let meta_content = v.get("meta_content").and_then(serde_json::Value::as_str).map(str::to_string);
    let language = v.get("language").and_then(serde_json::Value::as_str).map(str::to_string);
    Some(InputRecord { url, title, content_text, meta_content, language })
}

/// The fields of one indexable document, as mathematical values.
pub ghost struct DocModel {
    pub url: Seq<char>,
    pub title: Seq<char>,
    pub content: Seq<char>,
    pub preview: Seq<char>,
    pub language: Seq<char>,
    pub meta_tags: Seq<char>,
    pub nsfw: bool,
}

/// One document as handed to the index sink: constructed from one
/// accepted record, written, and discarded.
pub struct IndexableDocument {
    pub url: String,
    pub title: String,
    pub content: String,
    pub preview: String,
    pub language: String,
    pub meta_tags: String,
    pub nsfw: bool,
}

impl View for IndexableDocument {
    type V = DocModel;

    open spec fn view(&self) -> DocModel {
        DocModel {
            url: self.url@,
            title: self.title@,
            content: self.content@,
            preview: self.preview@,
            language: self.language@,
            meta_tags: self.meta_tags@,
            nsfw: self.nsfw,
        }
    }
}

/// An optional field, defaulted to the empty string when absent.
pub open spec fn or_empty(o: Option<Seq<char>>) -> Seq<char> {
    match o {
        Some(s) => s,
        None => Seq::empty(),
    }
}

/// The derived language tag: the record's own when present and
/// non-empty, `"en"` otherwise.
pub open spec fn spec_language(o: Option<Seq<char>>) -> Seq<char> {
    match o {
        Some(l) => if l.len() > 0 {
            l
        } else {
            "en"@
        },
        None => "en"@,
    }
}

/// The NSFW classification: a record is flagged when its content,
/// title, meta content, or URL stands for a blocked domain. The four
/// checks are one logical OR; order never affects the result.
pub open spec fn spec_nsfw(m: RecordModel, blocked: Set<Seq<char>>) -> bool {
    ||| spec_is_nsfw_domain(or_empty(m.content_text), blocked)
    ||| spec_is_nsfw_domain(or_empty(m.title), blocked)
    ||| spec_is_nsfw_domain(or_empty(m.meta_content), blocked)
    ||| spec_is_nsfw_domain(m.url, blocked)
}

/// The document derived from one record: absent fields default to
/// empty, the preview is bounded at 500 characters, the language
/// defaults to `"en"`, and the NSFW flag is the blocklist match.
pub open spec fn spec_derive(m: RecordModel, blocked: Set<Seq<char>>) -> DocModel {
    DocModel {
        url: m.url,
        title: or_empty(m.title),
        content: or_empty(m.content_text),
        preview: spec_preview(or_empty(m.content_text), 500),
        language: spec_language(m.language),
        meta_tags: or_empty(m.meta_content),
        nsfw: spec_nsfw(m, blocked),
    }
}

/// A record with no language at all is indexed with the default
/// language tag `"en"`.
pub proof fn lemma_language_default(m: RecordModel, blocked: Set<Seq<char>>)
    requires
        m.language is None,
    ensures
        spec_derive(m, blocked).language == "en"@,
{
}

/// An optional field as an owned string, the empty string when
/// absent.
fn field_or_empty(o: &Option<String>) -> (r: String)
    ensures
        r@ == or_empty(o.deep_view()),
{
    match o {
        Some(s) => s.clone(),
        None => String::new(),
    }
}

/// Derives the indexable document of one record: a pure function of
/// the record and the blocklist.
pub fn derive_document(rec: &InputRecord, nsfw_domains: &Blocklist) -> (d: IndexableDocument)
    ensures
        d@ == spec_derive(rec@, nsfw_domains@),
{
    let content = field_or_empty(&rec.content_text);
    let title = field_or_empty(&rec.title);
    let meta = field_or_empty(&rec.meta_content);
    let preview = generate_preview(content.as_str(), 500);
    let language = match &rec.language {
        Some(l) => if l.as_str().is_empty() {
            String::from_str("en")
        } else {
            l.clone()
        },
        None => String::from_str("en"),
    };
    // The URL is matched both as free text and as a URL; the two
    // checks coincide, and the OR keeps every branch of the policy
    // visible.
    let nsfw = is_nsfw(content.as_str(), nsfw_domains) || is_nsfw(title.as_str(), nsfw_domains)
        || is_nsfw(meta.as_str(), nsfw_domains) || is_nsfw(rec.url.as_str(), nsfw_domains)
        || is_nsfw_domain(rec.url.as_str(), nsfw_domains);
    IndexableDocument {
        url: rec.url.clone(),
        title,
        content,
        preview,
        language,
        meta_tags: meta,
        nsfw,
    }
}

} // verus!
