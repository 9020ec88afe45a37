use crate::digest::{digest_label, digest_of};
use crate::errors::PipelineError;
use crate::layer::{
    bytes_eq, copy_bytes, layer_views, Layer, LayerModel, MediaType, OutputModel, PrecompiledLayer,
};
use crate::manifest::{direct_digests, rewritten, ComponentModel, LockedApp, LockedComponent};
use crate::normalize::{is_component_encoded, normalize_source, normalize_spec};
use crate::provenance::{sorted_strict, ProvenanceSet};
use vstd::prelude::*;

verus! {

/// `j` is the first index among `layers` whose digest is `d`.
pub open spec fn first_match(layers: Seq<LayerModel>, d: Seq<u8>, j: int) -> bool {
    &&& 0 <= j < layers.len()
    &&& layers[j].digest == d
    &&& forall|t: int| 0 <= t < j ==> (#[trigger] layers[t]).digest != d
}

/// Some input layer carries digest `d`.
pub open spec fn digest_present(layers: Seq<LayerModel>, d: Seq<u8>) -> bool {
    exists|j: int| 0 <= j < layers.len() && (#[trigger] layers[j]).digest == d
}

/// Each of the digests is carried by some input layer.
pub open spec fn all_present(layers: Seq<LayerModel>, ds: Seq<Seq<u8>>) -> bool {
    forall|k: int| 0 <= k < ds.len() ==> digest_present(layers, #[trigger] ds[k])
}

/// `j` is the first index among `layers` tagged as the manifest layer.
pub open spec fn first_manifest(layers: Seq<LayerModel>, j: int) -> bool {
    &&& 0 <= j < layers.len()
    &&& layers[j].media_type == MediaType::Manifest
    &&& forall|t: int| 0 <= t < j ==> (#[trigger] layers[t]).media_type != MediaType::Manifest
}

/// Some input layer is tagged as the manifest layer.
pub open spec fn manifest_present(layers: Seq<LayerModel>) -> bool {
    exists|j: int|
        0 <= j < layers.len() && (#[trigger] layers[j]).media_type == MediaType::Manifest
}

/// The output layer recorded for one composed and precompiled
/// component.
pub open spec fn component_output(compiled: Seq<u8>, parents: Seq<int>) -> OutputModel {
    OutputModel { media_type: MediaType::Wasm, bytes: compiled, parents }
}

/// The finished output list: the per-component layers in manifest
/// order, then the re-encoded manifest, whose only parent is the
/// original manifest layer's index.
pub open spec fn emitted(outputs: Seq<OutputModel>, encoded: Seq<u8>, manifest_index: int) -> Seq<
    OutputModel,
> {
    outputs.push(
        OutputModel { media_type: MediaType::Manifest, bytes: encoded, parents: seq![manifest_index] },
    )
}

/// Declares wasmtime's engine type so a pre-configured precompilation
/// engine handle can pass through verified signatures; the value is
/// opaque here.
#[verifier::external_type_specification]
#[verifier::external_body]
pub struct ExEngine(wasmtime::Engine);

/// Relies on wasmtime's `Engine::precompile_component`: ahead-of-time
/// compiles one composed component binary for the engine's configured
/// target. The result depends on that configuration, so nothing is
/// assumed of it; a failure carries the engine's message.
#[verifier::external_body]
fn precompile_call(engine: &wasmtime::Engine, bytes: &Vec<u8>) -> (r: Result<Vec<u8>, Vec<u8>>) {
    match engine.precompile_component(bytes.as_slice()) {
        Ok(b) => Ok(b),
        Err(e) => Err(format!("{e:#}").into_bytes()),
    }
}

/// Where a pipeline run stands between two externally performed steps.
#[derive(Clone, Copy, PartialEq, Eq, Structural, Debug)]
pub enum Phase {
    /// The manifest layer is located; its bytes await structural
    /// decode.
    Decoding,
    /// The manifest is decoded; the next component can be begun.
    Ready,
    /// One component's direct references are resolved; its composed
    /// and precompiled bytes are awaited.
    Composing,
    /// Every component is processed; the rewritten manifest awaits
    /// re-encoding.
    Encoding,
}

/// The first layer whose digest is `d`, by linear scan of the input
/// list.
fn find_layer_by_digest(layers: &Vec<Layer>, d: &Vec<u8>) -> (r: Option<usize>)
    ensures
        r matches Some(j) ==> first_match(layer_views(layers@), d@, j as int),
        r is None <==> !digest_present(layer_views(layers@), d@),
{
    let n = layers.len();
    let mut k: usize = 0;
    while k < n
        invariant
            n == layers@.len(),
            k <= n,
            forall|t: int| 0 <= t < k ==> (#[trigger] layer_views(layers@)[t]).digest != d@,
        decreases n - k,
    {
        if bytes_eq(&layers[k].digest, d) {
            proof {
                assert(layer_views(layers@)[k as int].digest == d@);
            }
            return Some(k);
        }
        proof {
            assert(layer_views(layers@)[k as int].digest != d@);
        }
        k += 1;
    }
    proof {
        assert forall|j: int| 0 <= j < layer_views(layers@).len() implies (#[trigger] layer_views(
            layers@,
        )[j]).digest != d@ by {}
    }
    None
}

/// Some index recorded in `prov` is the first match of digest `ds[k]`.
pub open spec fn resolves_direct(
    prov: Seq<int>,
    layers: Seq<LayerModel>,
    ds: Seq<Seq<u8>>,
    k: int,
) -> bool {
    exists|j: int| #[trigger] prov.contains(j) && first_match(layers, ds[k], j)
}

/// Index `j` is the first match of one of the digests `ds`.
pub open spec fn is_direct_index(layers: Seq<LayerModel>, ds: Seq<Seq<u8>>, j: int) -> bool {
    exists|k: int| 0 <= k < ds.len() && first_match(layers, #[trigger] ds[k], j)
}

/// Two first matches for one digest are the same index.
proof fn lemma_first_match_unique(layers: Seq<LayerModel>, d: Seq<u8>, j1: int, j2: int)
    requires
        first_match(layers, d, j1),
        first_match(layers, d, j2),
    ensures
        j1 == j2,
{
    if j1 < j2 {
        assert(layers[j1].digest != d);
    }
    if j2 < j1 {
        assert(layers[j2].digest != d);
    }
}

/// The detail text `no source digest`.
pub open spec fn missing_digest_msg() -> Seq<u8> {
    seq![
        110u8,
        111u8,
        32u8,
        115u8,
        111u8,
        117u8,
        114u8,
        99u8,
        101u8,
        32u8,
        100u8,
        105u8,
        103u8,
        101u8,
        115u8,
        116u8,
    ]
}

/// Build the detail text for a source reference that carries no digest.
fn missing_digest_detail() -> (r: Vec<u8>)
    ensures
        r@ == missing_digest_msg(),
{
    let mut v: Vec<u8> = Vec::new();
    v.push(110);
    v.push(111);
    v.push(32);
    v.push(115);
    v.push(111);
    v.push(117);
    v.push(114);
    v.push(99);
    v.push(101);
    v.push(32);
    v.push(100);
    v.push(105);
    v.push(103);
    v.push(101);
    v.push(115);
    v.push(116);
    proof {
        assert(v@ =~= missing_digest_msg());
    }
    v
}

/// The pipeline state machine, the decision core of the run. It owns
/// the input layers and the manifest being rewritten; the embedding
/// program performs the externally supplied steps — structural decode
/// and encode of the manifest, composition and precompilation — and
/// feeds each result back:
///
/// `start` → decode the returned bytes → `manifest_decoded` → per
/// component: `begin_component`, compose (the engine pulls bytes
/// through `resolve_component_source`), precompile, then
/// `component_precompiled` → once `begin_component` yields `None`,
/// encode the manifest read from `manifest` → `manifest_encoded`,
/// which returns the output layers.
///
/// Any failure aborts the whole run: an error is returned, the
/// pipeline is dropped, and no output layer exists — output layers are
/// only ever handed out by `manifest_encoded`, after every component
/// has been rewritten.
pub struct Pipeline {
    layers: Vec<Layer>,
    manifest_index: usize,
    manifest: LockedApp,
    cursor: usize,
    outputs: Vec<PrecompiledLayer>,
    phase: Phase,
}

impl Pipeline {
    /// The phase the run stands in.
    pub closed spec fn st(self) -> Phase {
        self.phase
    }

    /// The input layers, as models.
    pub closed spec fn layers_view(self) -> Seq<LayerModel> {
        layer_views(self.layers@)
    }

    /// The manifest as decoded and so far rewritten.
    pub closed spec fn manifest_view(self) -> Seq<ComponentModel> {
        self.manifest@
    }

    /// The index of the layer the manifest was read from.
    pub closed spec fn manifest_loc(self) -> int {
        self.manifest_index as int
    }

    /// How many components are fully processed.
    pub closed spec fn cur(self) -> int {
        self.cursor as int
    }

    /// The output layers recorded so far, as models.
    pub closed spec fn outputs_view(self) -> Seq<OutputModel> {
        self.outputs@.map(|_k: int, o: PrecompiledLayer| o@)
    }

    /// Structural soundness of the state: the manifest location is the
    /// first manifest-tagged layer; one output layer stands per
    /// processed component; processed components have empty dependency
    /// sets; and the phase agrees with the cursor.
    pub closed spec fn wf(self) -> bool {
        &&& self.manifest_index < self.layers@.len()
        &&& first_manifest(self.layers_view(), self.manifest_index as int)
        &&& self.cursor <= self.manifest@.len()
        &&& self.outputs@.len() == self.cursor
        &&& (forall|k: int|
            0 <= k < self.cursor ==> (#[trigger] self.manifest@[k]).dependencies.len() == 0)
        &&& (forall|k: int|
            0 <= k < self.cursor ==> (#[trigger] self.outputs_view()[k]).media_type
                == MediaType::Wasm)
        &&& (self.phase == Phase::Decoding ==> self.cursor == 0 && self.manifest@.len() == 0)
        &&& (self.phase == Phase::Encoding ==> self.cursor == self.manifest@.len())
        &&& (self.phase == Phase::Composing ==> self.cursor < self.manifest@.len())
    }

    /// Begin a run over the given input layers by locating the
    /// manifest layer: the first layer carrying the manifest tag wins.
    /// On success, the manifest layer's bytes are returned for
    /// structural decode by the caller. Fails with `ManifestNotFound`
    /// exactly when no input layer carries the manifest tag; no other
    /// failure is possible here.
    pub fn start(layers: Vec<Layer>) -> (r: Result<(Pipeline, Vec<u8>), PipelineError>)
        ensures
            r is Ok <==> manifest_present(layer_views(layers@)),
            r matches Ok((p, mb)) ==> ({
                &&& p.wf()
                &&& p.st() == Phase::Decoding
                &&& p.layers_view() == layer_views(layers@)
                &&& first_manifest(layer_views(layers@), p.manifest_loc())
                &&& mb@ == layer_views(layers@)[p.manifest_loc()].bytes
                &&& p.manifest_view() == Seq::<ComponentModel>::empty()
                &&& p.outputs_view() == Seq::<OutputModel>::empty()
                &&& p.cur() == 0
            }),
            r matches Err(e) ==> e is ManifestNotFound,
    {
        let n = layers.len();
        let mut k: usize = 0;
        while k < n
            invariant
                n == layers@.len(),
                k <= n,
                forall|t: int|
                    0 <= t < k ==> (#[trigger] layer_views(layers@)[t]).media_type
                        != MediaType::Manifest,
            decreases n - k,
        {
            let is_manifest = matches!(layers[k].media_type, MediaType::Manifest);
            if is_manifest {
                proof {
                    assert(layer_views(layers@)[k as int].media_type == MediaType::Manifest);
                }
                let mb = copy_bytes(&layers[k].bytes);
                let p = Pipeline {
                    layers,
                    manifest_index: k,
                    manifest: LockedApp { components: Vec::new() },
                    cursor: 0,
                    outputs: Vec::new(),
                    phase: Phase::Decoding,
                };
                proof {
                    assert(p.manifest_view() =~= Seq::<ComponentModel>::empty());
                    assert(p.outputs_view() =~= Seq::<OutputModel>::empty());
                }
                return Ok((p, mb));
            }
            proof {
                assert(layer_views(layers@)[k as int].media_type != MediaType::Manifest);
            }
            k += 1;
        }
        proof {
            assert forall|j: int| 0 <= j < layer_views(layers@).len() implies (
            #[trigger] layer_views(layers@)[j]).media_type != MediaType::Manifest by {}
        }
        Err(PipelineError::ManifestNotFound)
    }

    /// Accept the structurally decoded manifest. The caller decodes the
    /// bytes handed out by `start`; a decode failure is a
    /// `ManifestDecodeError` and aborts the run instead of this call.
    pub fn manifest_decoded(&mut self, m: LockedApp)
        requires
            old(self).wf(),
            old(self).st() == Phase::Decoding,
        ensures
            final(self).wf(),
            final(self).st() == Phase::Ready,
            final(self).manifest_view() == m@,
            final(self).layers_view() == old(self).layers_view(),
            final(self).manifest_loc() == old(self).manifest_loc(),
            final(self).cur() == 0,
            final(self).outputs_view() == old(self).outputs_view(),
    {
        self.manifest = m;
        self.phase = Phase::Ready;
    }

    /// Take up the next component in manifest order. When all
    /// components are processed, `Ok(None)`: the manifest awaits
    /// re-encoding. Otherwise the component's direct references — its
    /// source digest and each dependency binding's digest — are
    /// resolved against the input layers, and their indices seed the
    /// fresh provenance set returned for this component. Fails with
    /// `DigestNotFound` exactly when one of those digests matches no
    /// input layer (the first unresolvable one, in declaration order,
    /// is reported), and with `CompositionError` when the component
    /// declares no source digest at all; on failure nothing changes.
    pub fn begin_component(&mut self) -> (r: Result<Option<ProvenanceSet>, PipelineError>)
        requires
            old(self).wf(),
            old(self).st() == Phase::Ready,
        ensures
            final(self).wf(),
            final(self).layers_view() == old(self).layers_view(),
            final(self).manifest_view() == old(self).manifest_view(),
            final(self).manifest_loc() == old(self).manifest_loc(),
            final(self).cur() == old(self).cur(),
            final(self).outputs_view() == old(self).outputs_view(),
            old(self).cur() == old(self).manifest_view().len() ==> (r matches Ok(o) && o is None
                && final(self).st() == Phase::Encoding),
            old(self).cur() < old(self).manifest_view().len() ==> ({
                let c = old(self).manifest_view()[old(self).cur()];
                let lv = old(self).layers_view();
                let ds = direct_digests(c);
                &&& (r is Ok <==> (c.source_digest is Some && all_present(lv, ds)))
                &&& (r matches Ok(o) ==> (o matches Some(prov) && final(self).st()
                    == Phase::Composing && sorted_strict(prov@) && (forall|k: int|
                    0 <= k < ds.len() ==> #[trigger] resolves_direct(prov@, lv, ds, k)) && (forall|
                    j: int,
                |
                    #[trigger] prov@.contains(j) ==> is_direct_index(lv, ds, j)) && (forall|j: int|
                    #[trigger] prov@.contains(j) ==> 0 <= j < lv.len())))
                &&& (r is Err ==> final(self).st() == Phase::Ready)
                &&& (c.source_digest is None ==> (r matches Err(e) && e
                    matches PipelineError::CompositionError { component_id, detail }
                    && component_id@ == c.id && detail@ == missing_digest_msg()))
                &&& ((c.source_digest is Some && !all_present(lv, ds)) ==> (r matches Err(e) && e
                    matches PipelineError::DigestNotFound { component_id, digest } && component_id@
                    == c.id && (exists|k: int|
                    0 <= k < ds.len() && #[trigger] ds[k] == digest@ && !digest_present(lv, digest@)
                        && (forall|t: int| 0 <= t < k ==> digest_present(lv, #[trigger] ds[t])))))
            }),
    {
        if self.cursor == self.manifest.components.len() {
            self.phase = Phase::Encoding;
            return Ok(None);
        }
        let ghost c = self.manifest_view()[self.cursor as int];
        let ghost lv = self.layers_view();
        let ghost ds = direct_digests(c);
        let comp = &self.manifest.components[self.cursor];
        proof {
            assert(comp@ == c);
        }
        let sd = match &comp.source_digest {
            None => {
                return Err(
                    (PipelineError::CompositionError {
                        component_id: copy_bytes(&comp.id),
                        detail: missing_digest_detail(),
                    }),
                );
            },
            Some(d) => d,
        };
        proof {
            assert(ds.len() == 1 + c.dependencies.len());
            assert(ds[0] == sd@);
        }
        let mut prov = ProvenanceSet::new();
        let j0 = match find_layer_by_digest(&self.layers, sd) {
            None => {
                return Err(
                    (PipelineError::DigestNotFound {
                        component_id: copy_bytes(&comp.id),
                        digest: copy_bytes(sd),
                    }),
                );
            },
            Some(j) => j,
        };
        prov.insert(j0);
        proof {
            assert(first_match(lv, ds[0], j0 as int));
            assert(prov@.contains(j0 as int));
            assert(resolves_direct(prov@, lv, ds, 0));
            assert(0 <= (j0 as int) < lv.len() && lv[j0 as int].digest == ds[0]);
        }
        let ndeps = comp.dependencies.len();
        let mut k: usize = 0;
        while k < ndeps
            invariant
                ndeps == c.dependencies.len(),
                ds == direct_digests(c),
                c.source_digest is Some,
                ds.len() == 1 + ndeps,
                self.layers_view() == old(self).layers_view(),
                self.manifest_view() == old(self).manifest_view(),
                self.manifest_loc() == old(self).manifest_loc(),
                self.cur() == old(self).cur(),
                self.outputs_view() == old(self).outputs_view(),
                self.st() == old(self).st(),
                self.st() == Phase::Ready,
                lv == self.layers_view(),
                c == self.manifest_view()[self.cursor as int],
                comp@ == c,
                self.wf(),
                0 <= self.cursor < self.manifest_view().len(),
                k <= ndeps,
                sorted_strict(prov@),
                forall|t: int| 0 <= t < 1 + k ==> #[trigger] resolves_direct(prov@, lv, ds, t),
                forall|j: int|
                    #[trigger] prov@.contains(j) ==> exists|t: int|
                        0 <= t < 1 + k && first_match(lv, #[trigger] ds[t], j),
                forall|t: int| 0 <= t < 1 + k ==> digest_present(lv, #[trigger] ds[t]),
            decreases ndeps - k,
        {
            let dep = &comp.dependencies[k];
            proof {
                assert(c.dependencies[k as int] == dep@);
                assert(ds[1 + k as int] == crate::manifest::binding_digests(c.dependencies)[k as int]);
                assert(ds[1 + k as int] == dep.digest@);
            }
            match find_layer_by_digest(&self.layers, &dep.digest) {
                None => {
                    proof {
                        assert(ds[1 + k as int] == dep.digest@ && !digest_present(
                            lv,
                            ds[1 + k as int],
                        ));
                    }
                    return Err(
                        (PipelineError::DigestNotFound {
                            component_id: copy_bytes(&comp.id),
                            digest: copy_bytes(&dep.digest),
                        }),
                    );
                },
                Some(j) => {
                    let ghost before = prov@;
                    prov.insert(j);
                    proof {
                        assert(first_match(lv, ds[1 + k as int], j as int));
                        assert(prov@.contains(j as int));
                        assert(0 <= (j as int) < lv.len() && lv[j as int].digest == ds[1
                            + k as int]);
                        assert forall|t: int|
                            0 <= t < 2 + k implies #[trigger] resolves_direct(
                            prov@,
                            lv,
                            ds,
                            t,
                        ) by {
                            if t < 1 + k {
                                assert(resolves_direct(before, lv, ds, t));
                                let jj = choose|jj: int|
                                    #[trigger] before.contains(jj) && first_match(lv, ds[t], jj);
                                assert(prov@.contains(jj) && first_match(lv, ds[t], jj));
                            } else {
                                assert(prov@.contains(j as int) && first_match(lv, ds[t], j as int));
                            }
                        }
                        assert forall|jj: int| #[trigger] prov@.contains(jj) implies exists|t: int|
                            0 <= t < 2 + k && first_match(lv, #[trigger] ds[t], jj) by {
                            if before.contains(jj) {
                                let t = choose|t: int|
                                    0 <= t < 1 + k && first_match(lv, #[trigger] ds[t], jj);
                                assert(0 <= t < 2 + k && first_match(lv, ds[t], jj));
                            } else {
                                assert(jj == j as int);
                                assert(0 <= 1 + k < 2 + k && first_match(
                                    lv,
                                    ds[1 + k as int],
                                    jj,
                                ));
                            }
                        }
                    }
                },
            }
            k += 1;
        }
        proof {
            assert(all_present(lv, ds));
            assert forall|j: int| #[trigger] prov@.contains(j) implies is_direct_index(
                lv,
                ds,
                j,
            ) by {
                let t = choose|t: int| 0 <= t < 1 + ndeps && first_match(lv, #[trigger] ds[t], j);
                assert(0 <= t < ds.len() && first_match(lv, ds[t], j));
            }
            assert forall|j: int| #[trigger] prov@.contains(j) implies 0 <= j < lv.len() by {
                let t = choose|t: int| 0 <= t < 1 + ndeps && first_match(lv, #[trigger] ds[t], j);
                assert(first_match(lv, ds[t], j));
            }
        }
        self.phase = Phase::Composing;
        Ok(Some(prov))
    }

    /// The component being composed, for the embedding program to hand
    /// to the composition engine.
    pub fn current_component(&self) -> (c: &LockedComponent)
        requires
            self.wf(),
            self.st() == Phase::Composing,
        ensures
            c@ == self.manifest_view()[self.cur()],
    {
        let c = &self.manifest.components[self.cursor];
        proof {
            assert(c@ == self.manifest_view()[self.cur()]);
        }
        c
    }

    /// Resolve one digest on behalf of the composition engine while a
    /// component is being composed: find the first input layer carrying
    /// the digest, bring its bytes to the composable encoding, and
    /// record the layer's index in the component's provenance set. The
    /// reads the engine performs through this call, together with the
    /// seeding done by `begin_component`, make up the component's
    /// provenance. Fails with `DigestNotFound` when no layer matches,
    /// and with `CompositionError` when the matched bytes cannot be
    /// normalized; on failure the provenance set is unchanged.
    pub fn resolve_component_source(&self, digest: &Vec<u8>, prov: &mut ProvenanceSet) -> (r:
        Result<Vec<u8>, PipelineError>)
        requires
            self.wf(),
            self.st() == Phase::Composing,
        ensures
            ({
                let lv = self.layers_view();
                let cid = self.manifest_view()[self.cur()].id;
                &&& (r is Ok ==> digest_present(lv, digest@))
                &&& (!digest_present(lv, digest@) ==> (r matches Err(e) && e
                    matches PipelineError::DigestNotFound { component_id, digest: dg }
                    && component_id@ == cid && dg@ == digest@ && final(prov)@ == old(prov)@))
                &&& (forall|j: int| #[trigger] first_match(lv, digest@, j) ==> ({
                    &&& (r matches Ok(b) ==> (b@ == normalize_spec(lv[j].bytes) && sorted_strict(
                        final(prov)@,
                    ) && (forall|x: int|
                        #[trigger] final(prov)@.contains(x) <==> (old(prov)@.contains(x) || x
                            == j))))
                    &&& (is_component_encoded(lv[j].bytes) ==> r is Ok)
                    &&& (r matches Err(e) ==> (e matches PipelineError::CompositionError {
                        component_id,
                        ..
                    } && component_id@ == cid && final(prov)@ == old(prov)@
                        && !is_component_encoded(lv[j].bytes)))
                }))
            }),
    {
        let ghost lv = self.layers_view();
        let j = match find_layer_by_digest(&self.layers, digest) {
            None => {
                return Err(
                    (PipelineError::DigestNotFound {
                        component_id: copy_bytes(&self.manifest.components[self.cursor].id),
                        digest: copy_bytes(digest),
                    }),
                );
            },
            Some(j) => j,
        };
        proof {
            assert forall|jj: int| #[trigger] first_match(lv, digest@, jj) implies jj
                == j as int by {
                lemma_first_match_unique(lv, digest@, jj, j as int);
            }
            assert(self.manifest.components@[self.cur()]@ == self.manifest_view()[self.cur()]);
        }
        let bytes = copy_bytes(&self.layers[j].bytes);
        proof {
            assert(bytes@ == lv[j as int].bytes);
        }
        match normalize_source(bytes) {
            Ok(b) => {
                prov.insert(j);
                Ok(b)
            },
            Err(detail) => Err(
                (PipelineError::CompositionError {
                    component_id: copy_bytes(&self.manifest.components[self.cursor].id),
                    detail,
                }),
            ),
        }
    }

    /// Wrap a composition-engine failure, tagging it with the id of the
    /// component being composed, which the engine's own message does
    /// not carry.
    pub fn compose_failed(&self, detail: Vec<u8>) -> (e: PipelineError)
        requires
            self.wf(),
            self.st() == Phase::Composing,
        ensures
            e matches PipelineError::CompositionError { component_id, detail: d } && component_id@
                == self.manifest_view()[self.cur()].id && d@ == detail@,
    {
        proof {
            assert(self.manifest.components@[self.cur()]@ == self.manifest_view()[self.cur()]);
        }
        PipelineError::CompositionError {
            component_id: copy_bytes(&self.manifest.components[self.cursor].id),
            detail,
        }
    }

    /// Wrap a precompilation-engine failure, tagging it with the id of
    /// the component whose composed binary was rejected.
    pub fn precompile_failed(&self, detail: Vec<u8>) -> (e: PipelineError)
        requires
            self.wf(),
            self.st() == Phase::Composing,
        ensures
            e matches PipelineError::PrecompilationError { component_id, detail: d }
                && component_id@ == self.manifest_view()[self.cur()].id && d@ == detail@,
    {
        proof {
            assert(self.manifest.components@[self.cur()]@ == self.manifest_view()[self.cur()]);
        }
        PipelineError::PrecompilationError {
            component_id: copy_bytes(&self.manifest.components[self.cursor].id),
            detail,
        }
    }

    /// Accept one component's compiled bytes and its final provenance
    /// set. The component's descriptor is rewritten in place: its
    /// source digest becomes the content-digest label of the compiled
    /// bytes, and its dependency bindings are cleared — the mark that
    /// it is now self-contained. One wasm-tagged output layer holding
    /// the compiled bytes and the provenance is recorded, and the run
    /// moves on to the next component.
    pub fn component_precompiled(&mut self, compiled: Vec<u8>, parents: ProvenanceSet)
        requires
            old(self).wf(),
            old(self).st() == Phase::Composing,
        ensures
            final(self).wf(),
            final(self).st() == Phase::Ready,
            final(self).layers_view() == old(self).layers_view(),
            final(self).manifest_loc() == old(self).manifest_loc(),
            final(self).cur() == old(self).cur() + 1,
            final(self).manifest_view() == old(self).manifest_view().update(
                old(self).cur(),
                rewritten(old(self).manifest_view()[old(self).cur()], digest_label(compiled@)),
            ),
            final(self).outputs_view() == old(self).outputs_view().push(
                component_output(compiled@, parents@),
            ),
    {
        let d = digest_of(&compiled);
        let idx = self.cursor;
        let ghost oldm = self.manifest_view();
        let comp = vec_index_mut(&mut self.manifest.components, idx);
        comp.source_digest = Some(d);
        comp.dependencies = Vec::new();
        proof {
            assert(self.manifest_view() =~~= oldm.update(
                idx as int,
                rewritten(oldm[idx as int], digest_label(compiled@)),
            ));
        }
        let ghost oldo = self.outputs_view();
        self.outputs.push(PrecompiledLayer { media_type: MediaType::Wasm, bytes: compiled, parents });
        let n = self.manifest.components.len();
        proof {
            assert(idx < n);
        }
        self.cursor = idx + 1;
        self.phase = Phase::Ready;
        proof {
            assert(self.outputs_view() =~~= oldo.push(component_output(compiled@, parents@)));
        }
    }

    /// Feed the composed binary to the given precompilation engine
    /// and, on success, rewrite the component and record its output
    /// layer exactly as `component_precompiled` does with the compiled
    /// bytes. What the engine returns depends on its configuration, so
    /// the compiled bytes are pinned only as the bytes of the layer
    /// just recorded. On engine failure nothing changes and the error
    /// is a `PrecompilationError` carrying the component's id and the
    /// engine's message.
    pub fn precompile_and_rewrite(
        &mut self,
        engine: &wasmtime::Engine,
        composed: Vec<u8>,
        parents: ProvenanceSet,
    ) -> (r: Result<(), PipelineError>)
        requires
            old(self).wf(),
            old(self).st() == Phase::Composing,
        ensures
            final(self).wf(),
            final(self).layers_view() == old(self).layers_view(),
            final(self).manifest_loc() == old(self).manifest_loc(),
            r is Ok ==> ({
                let b = final(self).outputs_view().last().bytes;
                &&& final(self).st() == Phase::Ready
                &&& final(self).cur() == old(self).cur() + 1
                &&& final(self).outputs_view() == old(self).outputs_view().push(
                    component_output(b, parents@),
                )
                &&& final(self).manifest_view() == old(self).manifest_view().update(
                    old(self).cur(),
                    rewritten(old(self).manifest_view()[old(self).cur()], digest_label(b)),
                )
            }),
            r matches Err(e) ==> ({
                &&& final(self).st() == old(self).st()
                &&& final(self).cur() == old(self).cur()
                &&& final(self).manifest_view() == old(self).manifest_view()
                &&& final(self).outputs_view() == old(self).outputs_view()
                &&& e matches PipelineError::PrecompilationError { component_id, .. }
                    && component_id@ == old(self).manifest_view()[old(self).cur()].id
            }),
    {
        match precompile_call(engine, &composed) {
            Ok(compiled) => {
                let ghost cb = compiled@;
                self.component_precompiled(compiled, parents);
                proof {
                    assert(self.outputs_view().last().bytes == cb);
                }
                Ok(())
            },
            Err(detail) => Err(self.precompile_failed(detail)),
        }
    }

    /// The manifest in its current state. Once every component is
    /// processed, the embedding program re-encodes precisely this
    /// value and hands the bytes to `manifest_encoded`.
    pub fn manifest(&self) -> (m: &LockedApp)
        ensures
            m@ == self.manifest_view(),
    {
        &self.manifest
    }

    /// Accept the re-encoded bytes of the fully rewritten manifest and
    /// finish the run. The result is the per-component output layers in
    /// manifest order, followed by one manifest-tagged layer holding
    /// the encoded bytes whose only parent is the original manifest
    /// layer's index: `len(components) + 1` layers in all. This is the
    /// only way any output layer leaves the pipeline, so a failed run
    /// yields none.
    pub fn manifest_encoded(self, encoded: Vec<u8>) -> (r: Vec<PrecompiledLayer>)
        requires
            self.wf(),
            self.st() == Phase::Encoding,
        ensures
            r@.map(|_k: int, o: PrecompiledLayer| o@) == emitted(
                self.outputs_view(),
                encoded@,
                self.manifest_loc(),
            ),
            r@.len() == self.manifest_view().len() + 1,
            forall|k: int|
                0 <= k < r@.len() - 1 ==> (#[trigger] r@[k])@.media_type == MediaType::Wasm,
            r@[r@.len() - 1]@.media_type == MediaType::Manifest,
            r@[r@.len() - 1]@.parents == seq![self.manifest_loc()],
            r@[r@.len() - 1]@.bytes == encoded@,
    {
        let ghost mi = self.manifest_index as int;
        let mut prov = ProvenanceSet::new();
        prov.insert(self.manifest_index);
        proof {
            assert(sorted_strict(seq![mi])) by {
                assert(seq![mi].len() == 1);
            }
            assert forall|x: int| prov@.contains(x) <==> seq![mi].contains(x) by {
                assert(seq![mi].contains(x) <==> x == mi) by {
                    if x == mi {
                        assert(seq![mi][0] == x);
                    }
                }
                assert(!Seq::<int>::empty().contains(x));
            }
            crate::provenance::lemma_sorted_unique(prov@, seq![mi]);
        }
        let ghost oldo = self.outputs_view();
        let Pipeline { layers: _, manifest_index: _, manifest: _, cursor: _, mut outputs, phase: _ } =
            self;
        outputs.push(PrecompiledLayer { media_type: MediaType::Manifest, bytes: encoded, parents: prov });
        proof {
            assert(outputs@.map(|_k: int, o: PrecompiledLayer| o@) =~~= emitted(
                oldo,
                encoded@,
                mi,
            ));
            assert forall|k: int| 0 <= k < outputs@.len() - 1 implies (#[trigger] outputs@[k])@.media_type
                == MediaType::Wasm by {
                assert(outputs@[k]@ == oldo[k]);
                assert(oldo[k].media_type == MediaType::Wasm);
            }
        }
        outputs
    }
}

/// Mutable access to one element of a vector.
fn vec_index_mut<T>(v: &mut Vec<T>, i: usize) -> (element: &mut T)
    requires
        i < old(v).len(),
    ensures
        *element == old(v)@[i as int],
        final(v)@ == old(v)@.update(i as int, *final(element)),
{
    &mut v[i]
}

/// Every component of the manifest declares a source digest, and every
/// digest it declares — source and dependency bindings alike —
/// resolves within the input layer set.
pub open spec fn manifest_resolvable(
    layers: Seq<LayerModel>,
    manifest: Seq<ComponentModel>,
) -> bool {
    forall|k: int|
        0 <= k < manifest.len() ==> ((#[trigger] manifest[k]).source_digest is Some && all_present(
            layers,
            direct_digests(manifest[k]),
        ))
}

/// Over a resolvable manifest the pipeline's own steps never fail:
/// each component meets exactly the condition under which
/// `begin_component` promises `Ok`, so — engines willing — the run
/// reaches `manifest_encoded`, which returns `len(components) + 1`
/// output layers.
pub proof fn lemma_resolvable_manifest_succeeds(
    layers: Seq<LayerModel>,
    manifest: Seq<ComponentModel>,
    k: int,
)
    requires
        manifest_resolvable(layers, manifest),
        0 <= k < manifest.len(),
    ensures
        manifest[k].source_digest is Some,
        all_present(layers, direct_digests(manifest[k])),
{
}

/// A component's provenance only grows while the composition engine
/// pulls sources through the loader, and it never leaves the input
/// range: inserting the index of one more resolved layer preserves the
/// range bound and every already-recorded index. So each component's
/// provenance stays a subset of the input-layer indices and keeps the
/// indices of all its directly referenced layers.
pub proof fn lemma_provenance_grows(before: Seq<int>, after: Seq<int>, j: int, n: int)
    requires
        forall|x: int| #[trigger] before.contains(x) ==> 0 <= x < n,
        0 <= j < n,
        forall|x: int| #[trigger] after.contains(x) <==> (before.contains(x) || x == j),
    ensures
        forall|x: int| #[trigger] after.contains(x) ==> 0 <= x < n,
        forall|x: int| #[trigger] before.contains(x) ==> after.contains(x),
{
}

/// Identical immutable input and identical engine results give
/// byte-identical output. Every step of the run is a function of the
/// state and of the value fed back — nothing else enters — so two runs
/// that agree on the recorded per-component layers, on the encoded
/// manifest bytes and on the manifest layer's index agree on every
/// emitted layer.
pub proof fn lemma_emitted_deterministic(
    o1: Seq<OutputModel>,
    o2: Seq<OutputModel>,
    e1: Seq<u8>,
    e2: Seq<u8>,
    i1: int,
    i2: int,
)
    requires
        o1 == o2,
        e1 == e2,
        i1 == i2,
    ensures
        emitted(o1, e1, i1) == emitted(o2, e2, i2),
{
}

} // verus!
