//! The conversion between the encodings: which reader and which writer a pair of
//! formats calls for, and the conversion itself on a source that is already parsed.

use vstd::prelude::*;
use crate::error::ErrorModel;
use crate::error::UsfmError;
use crate::lexer::pattern_matches;
use crate::lexer::GRAMMAR;
use crate::serialize_usfm::serialize_to_usfm;
use crate::serialize_usfm::usfm_document;
use crate::serialize_usj::serialize_to_usj;
use crate::serialize_usj::usj_json;
use crate::serialize_usj::usj_text;
use crate::serialize_usj::with_sids;
use crate::serialize_usx::document_events;
use crate::serialize_usx::serialize_to_usx;
use crate::text::copy_str;
use crate::text::str_eq;
use crate::tree::Document;
use crate::tree::DocumentModel;
use crate::usfm::build_document_from_tagstream;
use crate::usfm::document_of_search;
use crate::usj::build_document_from_json;
use crate::usj::document_of_json;
use crate::usj::JsonModel;
use crate::usj::JsonValue;
use crate::usj::UsjError;
use crate::usj::UsjErrorModel;
use crate::usx::build_document_from_events;
use crate::usx::document_of_events;
use crate::usx::events_model;
use crate::usx::EventModel;
use crate::usx::XmlEvent;

verus! {

/// The encodings that can be read.
#[derive(Debug, Clone, Copy, PartialEq, Eq, Structural)]
pub enum InputFormat {
    Usx,
    Usfm,
    Usj,
}

/// The encodings that can be written.
#[derive(Debug, Clone, Copy, PartialEq, Eq, Structural)]
pub enum OutputFormat {
    Usj,
    Usfm,
    Usx,
}

/// The encoding that a name of an input format stands for.
pub open spec fn input_format_spec(name: Seq<char>) -> Option<InputFormat> {
    if name == "usx"@ {
        Some(InputFormat::Usx)
    } else if name == "usfm"@ {
        Some(InputFormat::Usfm)
    } else if name == "json"@ || name == "usj"@ {
        Some(InputFormat::Usj)
    } else {
        None
    }
}

/// The encoding that a name of an output format stands for.
pub open spec fn output_format_spec(name: Seq<char>) -> Option<OutputFormat> {
    if name == "json"@ || name == "usj"@ {
        Some(OutputFormat::Usj)
    } else if name == "usfm"@ {
        Some(OutputFormat::Usfm)
    } else if name == "usx"@ {
        Some(OutputFormat::Usx)
    } else {
        None
    }
}

/// The encoding that a name of an input format stands for.
pub fn input_format(name: &str) -> (f: Option<InputFormat>)
    ensures
        f == input_format_spec(name@),
{
    if str_eq(name, "usx") {
        Some(InputFormat::Usx)
    } else if str_eq(name, "usfm") {
        Some(InputFormat::Usfm)
    } else if str_eq(name, "json") || str_eq(name, "usj") {
        Some(InputFormat::Usj)
    } else {
        None
    }
}

/// The encoding that a name of an output format stands for.
pub fn output_format(name: &str) -> (f: Option<OutputFormat>)
    ensures
        f == output_format_spec(name@),
{
    if str_eq(name, "json") || str_eq(name, "usj") {
        Some(OutputFormat::Usj)
    } else if str_eq(name, "usfm") {
        Some(OutputFormat::Usfm)
    } else if str_eq(name, "usx") {
        Some(OutputFormat::Usx)
    } else {
        None
    }
}

/// The message for a name that stands for no input format.
pub fn unsupported_input_message() -> (s: String)
    ensures
        s@ == "Unsupported input file format. Only 'usfm', 'usx', and 'json' are supported."@,
{
    copy_str("Unsupported input file format. Only 'usfm', 'usx', and 'json' are supported.")
}

/// The message for a name that stands for no output format.
pub fn unsupported_output_message() -> (s: String)
    ensures
        s@ == "Unsupported output file format. Only 'usfm', 'usx', and 'json' are supported."@,
{
    copy_str("Unsupported output file format. Only 'usfm', 'usx', and 'json' are supported.")
}

/// A source in one of the encodings, as far as it is already parsed.
pub enum Source {
    /// The text of a tag stream.
    Usfm(String),
    /// The events of an XML document.
    Usx(Vec<XmlEvent>),
    /// A JSON value.
    Usj(JsonValue),
}

/// A document in one of the encodings, as far as it is written here.
pub enum Rendered {
    /// A text.
    Text(String),
    /// The events of an XML document.
    Xml(Vec<XmlEvent>),
}

/// Why a conversion failed.
pub enum TransformError {
    /// The tag stream could not be read.
    Usfm(UsfmError),
    /// The JSON value is no document.
    Usj(UsjError),
    /// The name of the output format stands for no encoding.
    UnsupportedOutput,
}

/// The model of a source.
pub enum SourceModel {
    Usfm(Seq<char>),
    Usx(Seq<EventModel>),
    Usj(JsonModel),
}

/// The model of a written document.
pub enum RenderedModel {
    Text(Seq<char>),
    Xml(Seq<EventModel>),
}

/// The model of a failure of a conversion.
pub enum TransformErrorModel {
    Usfm(ErrorModel),
    Usj(UsjErrorModel),
    UnsupportedOutput,
}

impl Source {
    /// The model of the source.
    pub open spec fn view(&self) -> SourceModel {
        match self {
            Source::Usfm(t) => SourceModel::Usfm(t@),
            Source::Usx(e) => SourceModel::Usx(events_model(e@)),
            Source::Usj(v) => SourceModel::Usj(v@),
        }
    }
}

impl Rendered {
    /// The model of the written document.
    pub open spec fn view(&self) -> RenderedModel {
        match self {
            Rendered::Text(t) => RenderedModel::Text(t@),
            Rendered::Xml(e) => RenderedModel::Xml(events_model(e@)),
        }
    }
}

impl TransformError {
    /// The model of the failure.
    pub open spec fn view(&self) -> TransformErrorModel {
        match self {
            TransformError::Usfm(e) => TransformErrorModel::Usfm(e@),
            TransformError::Usj(e) => TransformErrorModel::Usj(e@),
            TransformError::UnsupportedOutput => TransformErrorModel::UnsupportedOutput,
        }
    }

    /// The message of a failure.
    pub open spec fn message_spec(m: TransformErrorModel) -> Seq<char> {
        match m {
            TransformErrorModel::Usfm(e) => UsfmError::message_prefix(e) + UsfmError::detail(e),
            TransformErrorModel::Usj(_) => "Unable to read the JSON document"@,
            TransformErrorModel::UnsupportedOutput =>
                "Unsupported output file format. Only 'usfm', 'usx', and 'json' are supported."@,
        }
    }

    /// A message for the reader.
    pub fn message(&self) -> (s: String)
        ensures
            s@ == Self::message_spec(self@),
    {
        match self {
            TransformError::Usfm(e) => e.message(),
            TransformError::Usj(_) => copy_str("Unable to read the JSON document"),
            TransformError::UnsupportedOutput => unsupported_output_message(),
        }
    }
}

/// A document written in an encoding, with the identifiers of its chapters and verses.
pub open spec fn rendered_spec(d: DocumentModel, format: OutputFormat) -> RenderedModel {
    match format {
        OutputFormat::Usj => RenderedModel::Text(usj_json(with_sids(d))),
        OutputFormat::Usfm => RenderedModel::Text(usfm_document(with_sids(d))),
        OutputFormat::Usx => RenderedModel::Xml(document_events(with_sids(d))),
    }
}

/// Writes a document in an encoding, after giving its chapters and verses their
/// identifiers.
pub fn render(document: Document, format: OutputFormat) -> (r: Rendered)
    ensures
        r@ == rendered_spec(document@, format),
{
    let usj = serialize_to_usj(document);
    match format {
        OutputFormat::Usj => Rendered::Text(usj_text(&usj)),
        OutputFormat::Usfm => Rendered::Text(serialize_to_usfm(&usj)),
        OutputFormat::Usx => Rendered::Xml(serialize_to_usx(&usj)),
    }
}

/// The document of a source, given what the search for the grammar yields in the text
/// of a tag stream.
pub open spec fn document_of_source(
    source: SourceModel,
    found: Option<Seq<crate::lexer::Groups>>,
) -> Result<DocumentModel, TransformErrorModel> {
    match source {
        SourceModel::Usfm(text) => match document_of_search(text, found) {
            Ok(d) => Ok(d),
            Err(e) => Err(TransformErrorModel::Usfm(e)),
        },
        SourceModel::Usx(events) => Ok(document_of_events(events)),
        SourceModel::Usj(v) => match document_of_json(v) {
            Ok(d) => Ok(d),
            Err(e) => Err(TransformErrorModel::Usj(e)),
        },
    }
}

/// The text of a source that is a tag stream; empty for any other source.
pub open spec fn tagstream_of(source: SourceModel) -> Seq<char> {
    match source {
        SourceModel::Usfm(text) => text,
        _ => Seq::empty(),
    }
}

/// The outcome of a conversion: the source is read first; then the name of the output
/// format is looked up; then the document is written.
pub open spec fn transform_spec(
    source: SourceModel,
    found: Option<Seq<crate::lexer::Groups>>,
    output_name: Seq<char>,
) -> Result<RenderedModel, TransformErrorModel> {
    match document_of_source(source, found) {
        Err(e) => Err(e),
        Ok(d) => match output_format_spec(output_name) {
            None => Err(TransformErrorModel::UnsupportedOutput),
            Some(format) => Ok(rendered_spec(d, format)),
        },
    }
}

/// Reads a source into its document.
pub fn read_source(source: &Source) -> (r: Result<Document, TransformError>)
    ensures
        match document_of_source(source@, pattern_matches(GRAMMAR@, tagstream_of(source@))) {
            Ok(d) => r is Ok && r->Ok_0@ == d,
            Err(e) => r is Err && r->Err_0@ == e,
        },
{
    match source {
        Source::Usfm(text) => match build_document_from_tagstream(text.as_str()) {
            Ok(d) => Ok(d),
            Err(e) => Err(TransformError::Usfm(e)),
        },
        Source::Usx(events) => Ok(build_document_from_events(events)),
        Source::Usj(v) => match build_document_from_json(v) {
            Ok(d) => Ok(d),
            Err(e) => Err(TransformError::Usj(e)),
        },
    }
}

/// Converts a source to the encoding that `output_file_format` names.
pub fn transform(source: &Source, output_file_format: &str) -> (r: Result<Rendered, TransformError>)
    ensures
        match transform_spec(
            source@,
            pattern_matches(GRAMMAR@, tagstream_of(source@)),
            output_file_format@,
        ) {
            Ok(m) => r is Ok && r->Ok_0@ == m,
            Err(e) => r is Err && r->Err_0@ == e,
        },
{
    let document = match read_source(source) {
        Ok(d) => d,
        Err(e) => {
            return Err(e);
        },
    };
    match output_format(output_file_format) {
        None => Err(TransformError::UnsupportedOutput),
        Some(format) => Ok(render(document, format)),
    }
}

} // verus!
