//! Resolution and rendering of a small site of text documents: a request
//! path is mapped to candidate files, the document's header block is taken
//! off, and the page is assembled from a generated shell and the rendered body.

pub mod header;
pub mod markup;
pub mod page;
pub mod route;
pub mod shell;
pub mod startup;
