//! Bodies and tables of rows.

use vstd::prelude::*;

use crate::view::{copy_list, copy_opt, opt_view, views, Copied};

verus! {

broadcast use vstd::string::group_string_axioms;

/// A row of a table: a header, a field or a parameter.
#[derive(Debug)]
pub struct KeyValue {
    pub key: String,
    pub value: String,
    pub description: String,
    pub enabled: bool,
}

/// What [`KeyValue`] holds.
pub struct RowV {
    pub key: Seq<char>,
    pub value: Seq<char>,
    pub description: Seq<char>,
    pub enabled: bool,
}

impl View for KeyValue {
    type V = RowV;

    open spec fn view(&self) -> RowV {
        RowV {
            key: self.key@,
            value: self.value@,
            description: self.description@,
            enabled: self.enabled,
        }
    }
}

impl Copied for KeyValue {
    fn copied(&self) -> (r: Self) {
        KeyValue {
            key: self.key.clone(),
            value: self.value.clone(),
            description: self.description.clone(),
            enabled: self.enabled,
        }
    }
}

/// An enabled row without a description.
pub open spec fn plain_row(key: Seq<char>, value: Seq<char>) -> RowV {
    RowV { key, value, description: seq![], enabled: true }
}

/// A row counts where it is enabled and has a key.
pub open spec fn row_counts(row: RowV) -> bool {
    row.enabled && row.key.len() > 0
}

impl KeyValue {
    /// An enabled row without a description.
    pub fn new(key: &str, value: &str) -> (r: KeyValue)
        ensures
            r@ == plain_row(key@, value@),
    {
        let r = KeyValue {
            key: key.to_owned(),
            value: value.to_owned(),
            description: String::new(),
            enabled: true,
        };
        assert(r@.description =~= seq![]);
        r
    }

    /// Whether the row counts.
    pub fn is_active(&self) -> (r: bool)
        ensures
            r == row_counts(self@),
    {
        self.enabled && self.key.as_str().unicode_len() > 0
    }
}

/// The language of a raw body.
#[derive(Debug, Clone, Copy, PartialEq, Eq, Structural)]
pub enum RawLanguage {
    Text,
    Json,
    Xml,
    Html,
    Yaml,
}

/// The content of a multipart part.
#[derive(Debug)]
pub enum PartContent {
    Text { value: String },
    File { path: String },
}

/// What [`PartContent`] holds.
pub enum ContentV {
    Text { value: Seq<char> },
    File { path: Seq<char> },
}

impl View for PartContent {
    type V = ContentV;

    open spec fn view(&self) -> ContentV {
        match self {
            PartContent::Text { value } => ContentV::Text {
                value: value@,
            },
            PartContent::File { path } => ContentV::File {
                path: path@,
            },
        }
    }
}

impl Copied for PartContent {
    fn copied(&self) -> (r: Self) {
        match self {
            PartContent::Text { value } => PartContent::Text {
                value: value.clone(),
            },
            PartContent::File { path } => PartContent::File {
                path: path.clone(),
            },
        }
    }
}

/// One part of a multipart body.
#[derive(Debug)]
pub struct MultipartPart {
    pub name: String,
    pub content: PartContent,
    pub content_type: Option<String>,
    pub enabled: bool,
}

/// What [`MultipartPart`] holds.
pub struct MultipartV {
    pub name: Seq<char>,
    pub content: ContentV,
    pub content_type: Option<Seq<char>>,
    pub enabled: bool,
}

impl View for MultipartPart {
    type V = MultipartV;

    open spec fn view(&self) -> MultipartV {
        MultipartV {
            name: self.name@,
            content: self.content@,
            content_type: opt_view(self.content_type),
            enabled: self.enabled,
        }
    }
}

impl Copied for MultipartPart {
    fn copied(&self) -> (r: Self) {
        MultipartPart {
            name: self.name.clone(),
            content: self.content.copied(),
            content_type: copy_opt(&self.content_type),
            enabled: self.enabled,
        }
    }
}

/// A body as it is written.
#[derive(Debug)]
pub enum BodyDef {
    Empty,
    Raw { text: String, language: RawLanguage },
    Json { text: String },
    Xml { text: String },
    FormUrlencoded { fields: Vec<KeyValue> },
    Multipart { parts: Vec<MultipartPart> },
    GraphQl { query: String, variables: String, operation_name: Option<String> },
    Binary { path: String },
}

/// What [`BodyDef`] holds.
pub enum BodyDefV {
    Empty,
    Raw { text: Seq<char>, language: RawLanguage },
    Json { text: Seq<char> },
    Xml { text: Seq<char> },
    FormUrlencoded { fields: Seq<RowV> },
    Multipart { parts: Seq<MultipartV> },
    GraphQl { query: Seq<char>, variables: Seq<char>, operation_name: Option<Seq<char>> },
    Binary { path: Seq<char> },
}

impl View for BodyDef {
    type V = BodyDefV;

    open spec fn view(&self) -> BodyDefV {
        match self {
            BodyDef::Empty => BodyDefV::Empty,
            BodyDef::Raw { text, language } => BodyDefV::Raw {
                text: text@,
                language: *language,
            },
            BodyDef::Json { text } => BodyDefV::Json {
                text: text@,
            },
            BodyDef::Xml { text } => BodyDefV::Xml {
                text: text@,
            },
            BodyDef::FormUrlencoded { fields } => BodyDefV::FormUrlencoded {
                fields: views(fields@),
            },
            BodyDef::Multipart { parts } => BodyDefV::Multipart {
                parts: views(parts@),
            },
            BodyDef::GraphQl { query, variables, operation_name } => BodyDefV::GraphQl {
                query: query@,
                variables: variables@,
                operation_name: opt_view(*operation_name),
            },
            BodyDef::Binary { path } => BodyDefV::Binary {
                path: path@,
            },
        }
    }
}

impl Copied for BodyDef {
    fn copied(&self) -> (r: Self) {
        match self {
            BodyDef::Empty => BodyDef::Empty,
            BodyDef::Raw { text, language } => BodyDef::Raw {
                text: text.clone(),
                language: *language,
            },
            BodyDef::Json { text } => BodyDef::Json {
                text: text.clone(),
            },
            BodyDef::Xml { text } => BodyDef::Xml {
                text: text.clone(),
            },
            BodyDef::FormUrlencoded { fields } => BodyDef::FormUrlencoded {
                fields: copy_list(fields),
            },
            BodyDef::Multipart { parts } => BodyDef::Multipart {
                parts: copy_list(parts),
            },
            BodyDef::GraphQl { query, variables, operation_name } => BodyDef::GraphQl {
                query: query.clone(),
                variables: variables.clone(),
                operation_name: copy_opt(operation_name),
            },
            BodyDef::Binary { path } => BodyDef::Binary {
                path: path.clone(),
            },
        }
    }
}

} // verus!
