use vstd::prelude::*;

verus! {

/// Why a pipeline run failed. Every failure is fatal to the whole run:
/// no output layer is produced once any of these arises.
///
/// Text fields are byte strings; the embedding program converts them
/// from and to its own textual types.
#[derive(Debug)]
pub enum PipelineError {
    /// No input layer carries the manifest media-type tag.
    ManifestNotFound,
    /// The manifest layer's bytes failed structural decode.
    ManifestDecodeError { detail: Vec<u8> },
    /// A component's source or dependency digest matches no input layer.
    DigestNotFound { component_id: Vec<u8>, digest: Vec<u8> },
    /// The composition engine failed for the named component, or its
    /// source could not be brought to the composable encoding.
    CompositionError { component_id: Vec<u8>, detail: Vec<u8> },
    /// The precompilation engine rejected the composed binary.
    PrecompilationError { component_id: Vec<u8>, detail: Vec<u8> },
}

} // verus!
