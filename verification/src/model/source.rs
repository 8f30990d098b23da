//! Where vector data comes from, and the bookkeeping of one data file.
//!
//! Reading a file or fetching a URL is left to the caller. This module
//! decides what kind of source a path names and what format a content has,
//! and records what was loaded.

use vstd::prelude::*;
use vstd::string::StringExecFns;
use arrow::datatypes::Schema;
use crate::error::GeoArrowError;
use crate::geodata::FeatureCollection;
use crate::geodata::GeoJson;
use crate::text::ends_with;
use crate::text::first_visible;
use crate::text::spec_first_visible;
use crate::text::starts_with;

verus! {

/// The schema type of `arrow`, opaque to the verifier.
#[verifier::external_type_specification]
#[verifier::external_body]
pub struct ExSchema(Schema);

/// A source of vector data: a local path, a URL or bytes in memory.
#[derive(Debug)]
pub enum DataSource {
    Local(String),
    Http(String),
    Memory(Vec<u8>),
}

/// A data source as a mathematical value.
pub enum SourceModel {
    Local(Seq<char>),
    Http(Seq<char>),
    Memory(Seq<u8>),
}

impl View for DataSource {
    type V = SourceModel;

    open spec fn view(&self) -> SourceModel {
        match self {
            DataSource::Local(path) => SourceModel::Local(path@),
            DataSource::Http(url) => SourceModel::Http(url@),
            DataSource::Memory(bytes) => SourceModel::Memory(bytes@),
        }
    }
}

impl Clone for DataSource {
    fn clone(&self) -> (copy: DataSource)
        ensures
            copy@ == self@,
    {
        match self {
            DataSource::Local(path) => DataSource::Local(path.clone()),
            DataSource::Http(url) => DataSource::Http(url.clone()),
            DataSource::Memory(bytes) => DataSource::Memory(bytes.clone()),
        }
    }
}

impl SourceModel {
    /// A path that begins with `http://` or `https://` names a URL, every
    /// other path a local file.
    pub open spec fn of_path(path: Seq<char>) -> SourceModel {
        if "http://"@.is_prefix_of(path) || "https://"@.is_prefix_of(path) {
            SourceModel::Http(path)
        } else {
            SourceModel::Local(path)
        }
    }

    /// The source as text: the path, the URL, or `<memory>`.
    pub open spec fn text(self) -> Seq<char> {
        match self {
            SourceModel::Local(path) => path,
            SourceModel::Http(url) => url,
            SourceModel::Memory(_) => "<memory>"@,
        }
    }
}

impl DataSource {
    /// The source that a path names.
    pub fn from_path(path: &str) -> (source: DataSource)
        ensures
            source@ == SourceModel::of_path(path@),
    {
        if starts_with(path, "http://") || starts_with(path, "https://") {
            DataSource::Http(String::from_str(path))
        } else {
            DataSource::Local(String::from_str(path))
        }
    }

    /// Tells whether the source is a URL.
    pub fn is_remote(&self) -> (r: bool)
        ensures
            r == (self@ is Http),
    {
        match self {
            DataSource::Http(_) => true,
            _ => false,
        }
    }

    /// The source as text.
    pub fn as_string(&self) -> (s: String)
        ensures
            s@ == self@.text(),
    {
        match self {
            DataSource::Local(path) => path.clone(),
            DataSource::Http(url) => url.clone(),
            DataSource::Memory(_) => String::from_str("<memory>"),
        }
    }
}

/// One data file: where it is, and what is known of it once it was loaded.
#[derive(Debug)]
pub struct GeoArrowFile {
    pub path: String,
    pub size: i64,
    pub created_at: String,
    pub schema: Option<Schema>,
    pub feature_count: Option<usize>,
}

/// Why a content is not accepted for a path, as the message of the error;
/// `None` where it is accepted as GeoJSON.
///
/// A path that ends in `.geojson` or `.json` is taken as GeoJSON whatever
/// the content. A path that ends in `.parquet` is refused. For every other
/// path the content decides: it is GeoJSON where its first character after
/// white space is `{` or `[`.
pub open spec fn spec_format_rejection(path: Seq<char>, content: Seq<char>) -> Option<Seq<char>> {
    if ".geojson"@.is_suffix_of(path) || ".json"@.is_suffix_of(path) {
        None
    } else if ".parquet"@.is_suffix_of(path) {
        Some("Parquet format not yet implemented"@)
    } else if spec_first_visible(content) == Some('{') || spec_first_visible(content) == Some(
        '[',
    ) {
        None
    } else {
        Some("Unknown file format"@)
    }
}

impl GeoArrowFile {
    /// A file that was not loaded yet.
    pub fn new(path: String, size: i64, created_at: String) -> (file: GeoArrowFile)
        ensures
            file.path == path,
            file.size == size,
            file.created_at == created_at,
            file.schema.is_none(),
            file.feature_count.is_none(),
    {
        GeoArrowFile { path, size, created_at, schema: None, feature_count: None }
    }

    /// The path of the file.
    pub fn file_path(&self) -> (path: &str)
        ensures
            path@ == self.path@,
    {
        self.path.as_str()
    }

    /// Tells whether the content is to be fetched from a URL rather than
    /// read from a local file: whether the path begins with `http`.
    pub fn is_remote(&self) -> (r: bool)
        ensures
            r == "http"@.is_prefix_of(self.path@),
    {
        starts_with(self.path.as_str(), "http")
    }

    /// Decides whether the content of the file is in a format that can be
    /// loaded, by the ending of the path and, failing that, by the
    /// beginning of the content.
    pub fn recognize_format(&self, content: &str) -> (r: Result<(), GeoArrowError>)
        ensures
            match spec_format_rejection(self.path@, content@) {
                None => r.is_ok(),
                Some(text) => r.is_err() && r.unwrap_err().is_serialization(text),
            },
    {
        let path: &str = self.path.as_str();
        if ends_with(path, ".geojson") || ends_with(path, ".json") {
            Ok(())
        } else if ends_with(path, ".parquet") {
            Err(GeoArrowError::serialization("Parquet format not yet implemented"))
        } else {
            let first: Option<char> = first_visible(content);
            let accepted: bool = match first {
                Some(c) => c == '{' || c == '[',
                None => false,
            };
            if accepted {
                Ok(())
            } else {
                Err(GeoArrowError::serialization("Unknown file format"))
            }
        }
    }

    /// Records that the document was loaded from the file: the number of
    /// its features is known from now on. A bare geometry counts as one
    /// feature. No schema is derived.
    pub fn open(&mut self, document: &GeoJson)
        ensures
            final(self).feature_count == Some(document.spec_features().len() as usize),
            final(self).schema.is_none(),
            final(self).path == old(self).path,
            final(self).size == old(self).size,
            final(self).created_at == old(self).created_at,
    {
        self.feature_count = Some(document.feature_count());
        self.schema = None;
    }

    /// The features of the document that was read from the file, as a
    /// collection. Fails where the file was not opened before.
    pub fn get_features(&self, document: GeoJson) -> (r: Result<FeatureCollection, GeoArrowError>)
        ensures
            self.feature_count.is_some() ==> r.is_ok() && r.unwrap().features@
                == document.spec_features(),
            self.feature_count.is_none() ==> r.is_err() && r.unwrap_err().is_io(
                "File not loaded. Call open() first."@,
            ),
    {
        if self.feature_count.is_none() {
            return Err(GeoArrowError::Io(String::from_str("File not loaded. Call open() first.")));
        }
        Ok(document.into_feature_collection())
    }
}

} // verus!
