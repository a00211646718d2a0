//! The document records served by the remote store.
//!
//! Only `id`, `vissible_name`, `doc_type`, `parent` and `modified_client`
//! drive the backup logic; the remaining fields are metadata carried along
//! unchanged. Decoding the remote JSON into these records happens outside
//! the library, which receives them as plain values.

use vstd::prelude::*;

verus! {

/// A downloaded document: id, filename, raw content.
pub type RmkFile = (String, String, Vec<u8>);

pub type RmkDocuments = Vec<RmkDocument>;

#[derive(Default, Debug, Clone, PartialEq)]
pub struct RmkDocument {
    pub bookmarked: bool,
    pub current_page: Option<i64>,
    pub id: String,
    pub modified_client: String,
    pub parent: String,
    pub doc_type: DocType,
    pub vissible_name: String,
    pub c_pages: Option<CPages>,
    pub cover_page_number: Option<i64>,
    pub custom_zoom_center_x: Option<i64>,
    pub custom_zoom_center_y: Option<i64>,
    pub custom_zoom_orientation: Option<String>,
    pub custom_zoom_page_height: Option<i64>,
    pub custom_zoom_page_width: Option<i64>,
    pub custom_zoom_scale: Option<i64>,
    pub document_metadata: Option<DocumentMetadata>,
    pub extra_metadata: Option<ExtraMetadata>,
    pub file_type: Option<String>,
    pub font_name: Option<String>,
    pub format_version: Option<i64>,
    pub line_height: Option<i64>,
    pub margins: Option<i64>,
    pub orientation: Option<String>,
    pub page_count: Option<i64>,
    pub size_in_bytes: Option<String>,
    pub text_alignment: Option<String>,
    pub text_scale: Option<i64>,
    pub zoom_mode: Option<String>,
    pub original_page_count: Option<i64>,
    pub pages: Option<Vec<String>>,
    pub redirection_page_map: Option<Vec<i64>>,
}

#[derive(Debug, Clone, PartialEq, Eq, Structural)]
pub enum DocType {
    CollectionType,
    DocumentType,
    Unknown,
}

impl Default for DocType {
    fn default() -> (r: Self)
        ensures
            r == DocType::Unknown,
    {
        DocType::Unknown
    }
}

#[derive(Default, Debug, Clone, PartialEq)]
pub struct CPages {
    pub last_opened: Option<LastOpened>,
    pub original: Option<Original>,
    pub pages: Option<Vec<Page>>,
    pub uuids: Option<Vec<Uuid>>,
}

#[derive(Default, Debug, Clone, PartialEq)]
pub struct LastOpened {
    pub timestamp: Option<String>,
    pub value: Option<String>,
}

#[derive(Default, Debug, Clone, PartialEq)]
pub struct Original {
    pub timestamp: Option<String>,
    pub value: Option<i64>,
}

#[derive(Default, Debug, Clone, PartialEq)]
pub struct Page {
    pub id: String,
    pub idx: Option<Idx>,
    pub redir: Option<Redir>,
    pub scroll_time: Option<ScrollTime>,
    pub template: Option<Template>,
}

#[derive(Default, Debug, Clone, PartialEq)]
pub struct Idx {
    pub timestamp: Option<String>,
    pub value: Option<String>,
}

#[derive(Default, Debug, Clone, PartialEq)]
pub struct Redir {
    pub timestamp: Option<String>,
    pub value: Option<i64>,
}

#[derive(Default, Debug, Clone, PartialEq)]
pub struct ScrollTime {
    pub timestamp: Option<String>,
    pub value: Option<String>,
}

#[derive(Default, Debug, Clone, PartialEq)]
pub struct Template {
    pub timestamp: Option<String>,
    pub value: Option<String>,
}

#[derive(Default, Debug, Clone, PartialEq)]
pub struct Uuid {
    pub first: Option<String>,
    pub second: Option<i64>,
}

#[derive(Default, Debug, Clone, PartialEq)]
pub struct DocumentMetadata {
    pub authors: Vec<String>,
    pub title: Option<String>,
}

#[derive(Default, Debug, Clone, PartialEq)]
pub struct ExtraMetadata {
    pub last_ballpointv2color: Option<String>,
    pub last_ballpointv2size: Option<String>,
    pub last_calligraphy_color: Option<String>,
    pub last_calligraphy_size: Option<String>,
    pub last_erase_section_color: Option<String>,
    pub last_erase_section_size: Option<String>,
    pub last_eraser_color: Option<String>,
    pub last_eraser_size: Option<String>,
    pub last_eraser_tool: Option<String>,
    pub last_finelinerv2color: Option<String>,
    pub last_finelinerv2size: Option<String>,
    pub last_highlighterv2color: Option<String>,
    pub last_highlighterv2size: Option<String>,
    pub last_markerv2color: Option<String>,
    pub last_markerv2size: Option<String>,
    pub last_paintbrushv2color: Option<String>,
    pub last_paintbrushv2size: Option<String>,
    pub last_pen: Option<String>,
    pub last_pencilv2color: Option<String>,
    pub last_pencilv2size: Option<String>,
    pub last_selection_tool_color: Option<String>,
    pub last_selection_tool_size: Option<String>,
    pub last_sharp_pencilv2color: Option<String>,
    pub last_sharp_pencilv2size: Option<String>,
    pub last_tool: Option<String>,
}

/// The failure taxonomy of the backup pipeline.
#[derive(Debug, Clone, PartialEq, Eq, Structural)]
pub enum BackupError {
    /// A request against the remote device failed or timed out.
    NetworkError,
    /// Malformed remote data: undecodable listing or unparsable timestamp.
    ParseError,
    /// Directory creation failure, write failure, or an existing-file
    /// conflict under non-overwrite mode.
    FilesystemError,
}

} // verus!
