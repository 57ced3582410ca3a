//! A normalized source fragment attached to a namespace node.
use vstd::prelude::*;

use crate::model::{Diagnostic, NamespaceNodeId, Provenance};
use crate::norm_syntax::NormProgram;
use std::path::PathBuf;

verus! {

/// `std::path::PathBuf`, carried through as an opaque file path.
#[verifier::external_type_specification]
#[verifier::external_body]
pub struct ExPathBuf(PathBuf);

/// A parsed and normalized source file fragment attached to a namespace
/// node.
#[derive(Debug)]
pub struct SourceFragment {
    pub path: PathBuf,
    pub namespace: NamespaceNodeId,
    pub normalized: NormProgram,
    pub diagnostics: Vec<Diagnostic>,
    pub provenance: Provenance,
}

} // verus!
