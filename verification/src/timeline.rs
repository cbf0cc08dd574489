//! The timeline: clips on lanes and the edits made to them, how automation
//! curves are named, which parameters can be automated, and snapping an edit
//! to the grid.

pub mod automation;
pub mod order;
pub mod parameter;
pub mod snap;
pub mod timeline;
