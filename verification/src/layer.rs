use crate::provenance::ProvenanceSet;
use vstd::prelude::*;

verus! {

/// The media-type tag of a layer, reduced to what the pipeline reads of
/// it: whether the tag is the manifest tag, the tag of a composed and
/// precompiled wasm component layer, or anything else. The embedding
/// program maps the concrete tag strings onto this classification by
/// exact string equality and back.
#[derive(Clone, Copy, PartialEq, Eq, Structural, Debug)]
pub enum MediaType {
    Manifest,
    Wasm,
    Other,
}

/// One content-addressed input layer: opaque bytes, the digest that is
/// their identity, and the layer's media-type tag. A layer's position
/// in the input list serves as its address for provenance within one
/// pipeline run.
pub struct Layer {
    pub media_type: MediaType,
    pub digest: Vec<u8>,
    pub bytes: Vec<u8>,
}

/// Spec-level image of a `Layer`.
#[verifier::ext_equal]
pub ghost struct LayerModel {
    pub media_type: MediaType,
    pub digest: Seq<u8>,
    pub bytes: Seq<u8>,
}

impl View for Layer {
    type V = LayerModel;

    open spec fn view(&self) -> LayerModel {
        LayerModel { media_type: self.media_type, digest: self.digest@, bytes: self.bytes@ }
    }
}

/// Spec-level images of a list of layers.
pub open spec fn layer_views(layers: Seq<Layer>) -> Seq<LayerModel> {
    layers.map(|_k: int, l: Layer| l@)
}

/// One produced layer: compiled bytes (or the re-encoded manifest),
/// tagged with the set of input-layer indices that contributed to it.
pub struct PrecompiledLayer {
    pub media_type: MediaType,
    pub bytes: Vec<u8>,
    pub parents: ProvenanceSet,
}

/// Spec-level image of a `PrecompiledLayer`.
#[verifier::ext_equal]
pub ghost struct OutputModel {
    pub media_type: MediaType,
    pub bytes: Seq<u8>,
    pub parents: Seq<int>,
}

impl View for PrecompiledLayer {
    type V = OutputModel;

    open spec fn view(&self) -> OutputModel {
        OutputModel { media_type: self.media_type, bytes: self.bytes@, parents: self.parents@ }
    }
}

/// A fresh vector with the same bytes.
pub fn copy_bytes(src: &Vec<u8>) -> (r: Vec<u8>)
    ensures
        r@ == src@,
{
    let mut out: Vec<u8> = Vec::new();
    let n = src.len();
    let mut k: usize = 0;
    while k < n
        invariant
            n == src@.len(),
            k <= n,
            out@ == src@.subrange(0, k as int),
        decreases n - k,
    {
        out.push(src[k]);
        proof {
            assert(out@ =~= src@.subrange(0, k + 1));
        }
        k += 1;
    }
    proof {
        assert(out@ =~= src@);
    }
    out
}

/// Whether two byte strings are equal.
pub fn bytes_eq(a: &Vec<u8>, b: &Vec<u8>) -> (r: bool)
    ensures
        r == (a@ == b@),
{
    if a.len() != b.len() {
        return false;
    }
    let n = a.len();
    let mut k: usize = 0;
    while k < n
        invariant
            n == a@.len(),
            n == b@.len(),
            k <= n,
            forall|t: int| 0 <= t < k ==> a@[t] == b@[t],
        decreases n - k,
    {
        if a[k] != b[k] {
            return false;
        }
        k += 1;
    }
    proof {
        assert(a@ =~= b@);
    }
    true
}

} // verus!
