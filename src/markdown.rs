//! The templates that the index document is rendered with, and the values
//! that the templates read.
use vstd::prelude::*;

use crate::model::Area;

verus! {

/// Handlebar template strings from the config file
#[derive(Debug)]
pub struct MdFormatConfig {
    /// Handlebar template for systems
    pub system: String,
    /// Handlebar template for areas
    pub area: String,
    /// Handlebar template for categories
    pub category: String,
    /// Handlebar template for folders
    pub folder: String,
    /// Handlebar template for extended folders
    pub xfolder: String,
    /// Handlebar template for new markdown files
    pub markdown: String,
}

impl Default for MdFormatConfig {
    fn default() -> (r: Self)
        ensures
            r.system@ == "# {{name}}"@,
            r.area@ == "## {{id}}.{{start id_range}}-{{end id_range}} {{topic}}"@,
            r.category@ == "- {{full_id id}} {{topic}}"@,
            r.folder@
                == "  - {{#if (is_folder kind)}}{{full_id id}} {{topic}}{{else}}[[{{full_id id}} {{topic}}]]{{/if}}"@,
            r.xfolder@
                == "    - {{#if (is_folder kind)}}{{full_id id}} {{topic}}{{else}}[[{{full_id id}} {{topic}}]]{{/if}}"@,
            r.markdown@ == "---\ntags: [johnny-decimal, Librarian]\n---"@,
    {
        MdFormatConfig {
            system: "# {{name}}".to_owned(),
            area: "## {{id}}.{{start id_range}}-{{end id_range}} {{topic}}".to_owned(),
            category: "- {{full_id id}} {{topic}}".to_owned(),
            folder: "  - {{#if (is_folder kind)}}{{full_id id}} {{topic}}{{else}}[[{{full_id id}} {{topic}}]]{{/if}}".to_owned(),
            xfolder: "    - {{#if (is_folder kind)}}{{full_id id}} {{topic}}{{else}}[[{{full_id id}} {{topic}}]]{{/if}}".to_owned(),
            markdown: "---\ntags: [johnny-decimal, Librarian]\n---".to_owned(),
        }
    }
}

/// Bind the area to the system id
#[derive(Debug)]
pub struct AreaWithParentId<'area> {
    /// The area to format
    pub area: &'area Area,
    /// The id of the containing system
    pub system_id: &'area str,
}

} // verus!
