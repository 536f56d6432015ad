//! Handing the graph to a layout tool: the attributes of a node and the
//! output format that a file name asks for.
//!
//! The drawing itself is made by an outside program. The library prepares
//! what that program is given.

use crate::resource::{Resource, ResourceView};
use crate::text::{extend, to_chars, to_string};
use std::path::Path;
use vstd::prelude::*;

verus! {

/// Why a graph cannot be handed over.
#[derive(Clone, Copy, Debug, PartialEq, Eq, Structural)]
pub enum ExportError {
    /// The file name has no extension to take the output format from.
    MissingExtension,
    /// A resource has no domain to label its node with.
    MissingDomain,
}

/// The attributes of the node of a resource with a domain: the label is
/// domain and path, and nodes of one domain form a group.
pub open spec fn attributes_of(r: ResourceView) -> Seq<char>
    recommends
        r.domain is Some,
{
    "label=\""@ + r.domain->0 + r.path + "\" group=\""@ + r.domain->0
        + "\" fontname=\"monospace\""@
}

/// The option that selects the output format named by a file extension.
pub open spec fn flag_of(extension: Seq<char>) -> Seq<char> {
    "-T"@ + extension
}

/// Calls `std::path::Path::extension` on `path`. What counts as the file
/// name of a path differs between platforms, so nothing is claimed of the
/// outcome.
#[verifier::external_body]
fn path_extension(path: &str) -> (extension: Option<String>) {
    Path::new(path).extension().and_then(|e| e.to_str()).map(|e| e.to_owned())
}

/// Appends the characters of `s` to `out`.
fn push_str(out: &mut Vec<char>, s: &str)
    ensures
        final(out)@ == old(out)@ + s@,
{
    extend(out, &to_chars(s));
}

/// The attributes of the node of `url`, where `url` has a domain.
pub fn node_attributes(url: &Resource) -> (attributes: Result<String, ExportError>)
    ensures
        match attributes {
            Ok(a) => url@.domain is Some && a@ == attributes_of(url@),
            Err(e) => url@.domain is None && e == ExportError::MissingDomain,
        },
{
    match url.domain() {
        Some(domain) => {
            let mut out: Vec<char> = Vec::new();
            push_str(&mut out, "label=\"");
            push_str(&mut out, domain);
            push_str(&mut out, url.path());
            push_str(&mut out, "\" group=\"");
            push_str(&mut out, domain);
            push_str(&mut out, "\" fontname=\"monospace\"");
            Ok(to_string(&out))
        },
        None => Err(ExportError::MissingDomain),
    }
}

/// The option that selects the output format, given the extension of the
/// file to write.
pub fn format_flag(extension: Option<String>) -> (flag: Result<String, ExportError>)
    ensures
        match flag {
            Ok(f) => extension is Some && f@ == flag_of(extension->0@),
            Err(e) => extension is None && e == ExportError::MissingExtension,
        },
{
    match extension {
        Some(ext) => {
            let mut out: Vec<char> = Vec::new();
            push_str(&mut out, "-T");
            push_str(&mut out, ext.as_str());
            Ok(to_string(&out))
        },
        None => Err(ExportError::MissingExtension),
    }
}

/// The option that selects the output format for the file `path`: the
/// format is named by the file's extension, and a file without one selects
/// none.
pub fn output_format(path: &str) -> (flag: Result<String, ExportError>)
    ensures
        match flag {
            Ok(f) => exists|extension: Seq<char>| f@ == flag_of(extension),
            Err(e) => e == ExportError::MissingExtension,
        },
{
    format_flag(path_extension(path))
}

} // verus!
