use spin_layers::digest::digest_of;
use spin_layers::errors::PipelineError;
use spin_layers::layer::{Layer, MediaType};
use spin_layers::manifest::{DependencyBinding, LockedApp, LockedComponent};
use spin_layers::normalize::normalize_source;
use spin_layers::pipeline::Pipeline;
use spin_layers::provenance::ProvenanceSet;

fn hexd(n: u8) -> u8 {
    if n < 10 {
        b'0' + n
    } else {
        b'a' + n - 10
    }
}

fn sha256_label(bytes: &[u8]) -> Vec<u8> {
    let digest = <sha2::Sha256 as sha2::Digest>::digest(bytes);
    let mut out = b"sha256:".to_vec();
    for b in digest.iter() {
        out.push(hexd(b >> 4));
        out.push(hexd(b & 0x0f));
    }
    out
}

fn layer(media: MediaType, digest: &[u8], bytes: &[u8]) -> Layer {
    Layer { media_type: media, digest: digest.to_vec(), bytes: bytes.to_vec() }
}

fn module_bytes() -> Vec<u8> {
    // An empty core wasm module: magic, version 1, layer 0.
    vec![0x00, 0x61, 0x73, 0x6d, 0x01, 0x00, 0x00, 0x00]
}

fn component_header_bytes() -> Vec<u8> {
    // The preamble of the composable encoding: magic, version, layer 1.
    vec![0x00, 0x61, 0x73, 0x6d, 0x0d, 0x00, 0x01, 0x00]
}

fn component(id: &[u8], source: Option<&[u8]>, deps: &[(&[u8], &[u8])]) -> LockedComponent {
    LockedComponent {
        id: id.to_vec(),
        source_digest: source.map(|d| d.to_vec()),
        dependencies: deps
            .iter()
            .map(|(name, digest)| DependencyBinding {
                name: name.to_vec(),
                digest: digest.to_vec(),
            })
            .collect(),
    }
}

#[test]
fn manifest_not_found_on_empty_input() {
    let r = Pipeline::start(vec![]);
    assert!(matches!(r, Err(PipelineError::ManifestNotFound)));
}

#[test]
fn manifest_not_found_without_manifest_layer() {
    // A single opaque layer and no manifest-tagged layer: the run fails
    // before producing anything.
    let layers = vec![layer(MediaType::Other, b"sha256:d1", &module_bytes())];
    let r = Pipeline::start(layers);
    assert!(matches!(r, Err(PipelineError::ManifestNotFound)));
}

#[test]
fn start_returns_first_manifest_layer_bytes() {
    // With several manifest-tagged layers the first one wins, and the
    // final manifest layer's provenance names its index.
    let layers = vec![
        layer(MediaType::Other, b"sha256:d1", b"opaque"),
        layer(MediaType::Manifest, b"sha256:m1", b"first manifest"),
        layer(MediaType::Manifest, b"sha256:m2", b"second manifest"),
    ];
    let (mut p, mb) = Pipeline::start(layers).unwrap();
    assert_eq!(mb, b"first manifest".to_vec());
    p.manifest_decoded(LockedApp { components: vec![] });
    assert!(p.begin_component().unwrap().is_none());
    let outputs = p.manifest_encoded(b"re-encoded".to_vec());
    assert_eq!(outputs.len(), 1);
    assert_eq!(outputs[0].media_type, MediaType::Manifest);
    assert_eq!(outputs[0].parents.len(), 1);
    assert!(outputs[0].parents.contains(1));
}

#[test]
fn normalize_is_noop_on_composable_bytes() {
    let bytes = component_header_bytes();
    let out = normalize_source(bytes.clone()).unwrap();
    assert_eq!(out, bytes);
}

#[test]
fn normalize_wraps_raw_module() {
    let out = normalize_source(module_bytes()).unwrap();
    // The componentization engine really ran: the result is in the
    // composable encoding, not the module handed in.
    assert!(out.len() >= 8);
    assert_eq!(out[6], 1);
    assert_ne!(out, module_bytes());
}

#[test]
fn digest_label_of_known_bytes() {
    let label = digest_of(&b"abc".to_vec());
    assert_eq!(
        label,
        b"sha256:ba7816bf8f01cfea414140de5dae2223b00361a396177a9cb410ff61f20015ad".to_vec()
    );
}

#[test]
fn digest_label_of_empty_bytes() {
    let label = digest_of(&Vec::new());
    assert_eq!(
        label,
        b"sha256:e3b0c44298fc1c149afbf4c8996fb92427ae41e4649b934ca495991b7852b855".to_vec()
    );
}

#[test]
fn provenance_deduplicates_and_orders() {
    let mut prov = ProvenanceSet::new();
    prov.insert(5);
    prov.insert(3);
    prov.insert(5);
    prov.insert(1);
    assert_eq!(prov.len(), 3);
    assert_eq!(prov.index_at(0), 1);
    assert_eq!(prov.index_at(1), 3);
    assert_eq!(prov.index_at(2), 5);
    assert!(prov.contains(3));
    assert!(!prov.contains(2));
}

#[test]
fn digest_not_found_aborts_run() {
    // The manifest's only component references a digest absent from the
    // input set: the whole call fails with DigestNotFound and no output
    // layer exists.
    let layers = vec![layer(MediaType::Manifest, b"sha256:m1", b"manifest")];
    let (mut p, _mb) = Pipeline::start(layers).unwrap();
    p.manifest_decoded(LockedApp {
        components: vec![component(b"main", Some(b"sha256:absent"), &[])],
    });
    let r = p.begin_component();
    match r {
        Err(PipelineError::DigestNotFound { component_id, digest }) => {
            assert_eq!(component_id, b"main".to_vec());
            assert_eq!(digest, b"sha256:absent".to_vec());
        }
        _ => panic!("expected DigestNotFound"),
    }
}

#[test]
fn missing_source_digest_is_composition_error() {
    let layers = vec![layer(MediaType::Manifest, b"sha256:m1", b"manifest")];
    let (mut p, _mb) = Pipeline::start(layers).unwrap();
    p.manifest_decoded(LockedApp { components: vec![component(b"main", None, &[])] });
    match p.begin_component() {
        Err(PipelineError::CompositionError { component_id, detail }) => {
            assert_eq!(component_id, b"main".to_vec());
            assert_eq!(detail, b"no source digest".to_vec());
        }
        _ => panic!("expected CompositionError"),
    }
}

#[test]
fn missing_dependency_digest_is_reported() {
    let layers = vec![
        layer(MediaType::Manifest, b"sha256:m1", b"manifest"),
        layer(MediaType::Other, b"sha256:src", &component_header_bytes()),
    ];
    let (mut p, _mb) = Pipeline::start(layers).unwrap();
    p.manifest_decoded(LockedApp {
        components: vec![component(
            b"main",
            Some(b"sha256:src"),
            &[(b"libfoo", b"sha256:gone")],
        )],
    });
    match p.begin_component() {
        Err(PipelineError::DigestNotFound { component_id, digest }) => {
            assert_eq!(component_id, b"main".to_vec());
            assert_eq!(digest, b"sha256:gone".to_vec());
        }
        _ => panic!("expected DigestNotFound"),
    }
}

#[test]
fn resolve_unknown_digest_fails_and_leaves_provenance() {
    let layers = vec![
        layer(MediaType::Manifest, b"sha256:m1", b"manifest"),
        layer(MediaType::Other, b"sha256:src", &component_header_bytes()),
    ];
    let (mut p, _mb) = Pipeline::start(layers).unwrap();
    p.manifest_decoded(LockedApp {
        components: vec![component(b"main", Some(b"sha256:src"), &[])],
    });
    let mut prov = p.begin_component().unwrap().unwrap();
    let before = prov.len();
    let r = p.resolve_component_source(&b"sha256:nowhere".to_vec(), &mut prov);
    assert!(matches!(r, Err(PipelineError::DigestNotFound { .. })));
    assert_eq!(prov.len(), before);
}

#[test]
fn engine_failures_carry_component_id() {
    let layers = vec![
        layer(MediaType::Manifest, b"sha256:m1", b"manifest"),
        layer(MediaType::Other, b"sha256:src", &component_header_bytes()),
    ];
    let (mut p, _mb) = Pipeline::start(layers).unwrap();
    p.manifest_decoded(LockedApp {
        components: vec![component(b"main", Some(b"sha256:src"), &[])],
    });
    let _prov = p.begin_component().unwrap().unwrap();
    match p.compose_failed(b"cycle detected".to_vec()) {
        PipelineError::CompositionError { component_id, detail } => {
            assert_eq!(component_id, b"main".to_vec());
            assert_eq!(detail, b"cycle detected".to_vec());
        }
        _ => panic!("expected CompositionError"),
    }
    match p.precompile_failed(b"unsupported target".to_vec()) {
        PipelineError::PrecompilationError { component_id, detail } => {
            assert_eq!(component_id, b"main".to_vec());
            assert_eq!(detail, b"unsupported target".to_vec());
        }
        _ => panic!("expected PrecompilationError"),
    }
}

/// Drive one full run: the composed binary for each component is the
/// concatenation of its resolved source and dependency bytes, and the
/// precompilation engine is the identity — both deterministic.
fn run_pipeline(layers: Vec<Layer>, app: LockedApp, encoded: &[u8]) -> Result<RunResult, PipelineError> {
    let (mut p, manifest_bytes) = Pipeline::start(layers)?;
    p.manifest_decoded(app);
    let mut digests: Vec<Vec<u8>> = Vec::new();
    let mut provenances: Vec<Vec<usize>> = Vec::new();
    while let Some(mut prov) = p.begin_component()? {
        let comp = p.current_component();
        let source = comp.source_digest.clone().unwrap();
        let dep_digests: Vec<Vec<u8>> =
            comp.dependencies.iter().map(|d| d.digest.clone()).collect();
        let mut composed = p.resolve_component_source(&source, &mut prov)?;
        for d in &dep_digests {
            composed.extend(p.resolve_component_source(d, &mut prov)?);
        }
        let compiled = composed; // identity precompilation
        p.component_precompiled(compiled, prov);
    }
    let manifest = p.manifest();
    for c in &manifest.components {
        assert!(c.dependencies.is_empty());
        digests.push(c.source_digest.clone().unwrap());
    }
    let outputs = p.manifest_encoded(encoded.to_vec());
    for o in &outputs {
        let mut parents = Vec::new();
        for k in 0..o.parents.len() {
            parents.push(o.parents.index_at(k));
        }
        provenances.push(parents);
    }
    Ok(RunResult {
        manifest_bytes,
        digests,
        media_types: outputs.iter().map(|o| o.media_type).collect(),
        bytes: outputs.iter().map(|o| o.bytes.clone()).collect(),
        provenances,
    })
}

struct RunResult {
    manifest_bytes: Vec<u8>,
    digests: Vec<Vec<u8>>,
    media_types: Vec<MediaType>,
    bytes: Vec<Vec<u8>>,
    provenances: Vec<Vec<usize>>,
}

fn scenario_layers() -> Vec<Layer> {
    vec![
        layer(MediaType::Manifest, b"sha256:m1", b"manifest bytes"),
        layer(MediaType::Other, b"sha256:d1", &module_bytes()),
    ]
}

fn scenario_app() -> LockedApp {
    LockedApp {
        components: vec![component(
            b"main",
            Some(b"sha256:d1"),
            &[(b"libfoo", b"sha256:d1")],
        )],
    }
}

#[test]
fn full_run_single_component() {
    // One manifest layer, one raw-module layer D1 that is both the
    // source of "main" and its dependency "libfoo". The loader resolves
    // D1, normalizes it, and the run emits two layers: the component
    // layer with provenance {1}, then the manifest layer with
    // provenance {0}.
    let r = run_pipeline(scenario_layers(), scenario_app(), b"encoded manifest").unwrap();
    assert_eq!(r.manifest_bytes, b"manifest bytes".to_vec());
    assert_eq!(r.media_types, vec![MediaType::Wasm, MediaType::Manifest]);
    assert_eq!(r.bytes.len(), 2);
    assert_eq!(r.provenances, vec![vec![1], vec![0]]);
    assert_eq!(r.bytes[1], b"encoded manifest".to_vec());
    // The rewritten entry for "main" carries the digest of the compiled
    // bytes, algorithm-tagged.
    assert_eq!(r.digests, vec![sha256_label(&r.bytes[0])]);
    // The compiled bytes went through real componentization of the raw
    // module (twice: once as source, once as dependency).
    assert_ne!(r.bytes[0], module_bytes());
}

#[test]
fn full_run_is_deterministic() {
    let a = run_pipeline(scenario_layers(), scenario_app(), b"encoded manifest").unwrap();
    let b = run_pipeline(scenario_layers(), scenario_app(), b"encoded manifest").unwrap();
    assert_eq!(a.bytes, b.bytes);
    assert_eq!(a.digests, b.digests);
    assert_eq!(a.provenances, b.provenances);
}

#[test]
fn full_run_two_components_orders_outputs() {
    // Components first, in manifest order, the manifest layer last:
    // len(components) + 1 output layers.
    let layers = vec![
        layer(MediaType::Other, b"sha256:a", &component_header_bytes()),
        layer(MediaType::Manifest, b"sha256:m1", b"manifest bytes"),
        layer(MediaType::Other, b"sha256:b", &component_header_bytes()),
    ];
    let app = LockedApp {
        components: vec![
            component(b"alpha", Some(b"sha256:a"), &[]),
            component(b"beta", Some(b"sha256:b"), &[(b"alpha", b"sha256:a")]),
        ],
    };
    let r = run_pipeline(layers, app, b"final manifest").unwrap();
    assert_eq!(
        r.media_types,
        vec![MediaType::Wasm, MediaType::Wasm, MediaType::Manifest]
    );
    // alpha read only layer 0; beta read layers 0 and 2; the manifest
    // layer descends from layer 1 alone.
    assert_eq!(r.provenances, vec![vec![0], vec![0, 2], vec![1]]);
    // Identity precompilation of already-composable bytes: the digests
    // are those of the concatenated resolved bytes.
    assert_eq!(r.digests[0], sha256_label(&component_header_bytes()));
    let mut both = component_header_bytes();
    both.extend(component_header_bytes());
    assert_eq!(r.digests[1], sha256_label(&both));
}

#[test]
fn absent_digest_fails_whole_run() {
    // A second component referencing an absent digest aborts the run
    // with DigestNotFound and yields no output layers at all.
    let layers = vec![
        layer(MediaType::Manifest, b"sha256:m1", b"manifest bytes"),
        layer(MediaType::Other, b"sha256:a", &component_header_bytes()),
    ];
    let app = LockedApp {
        components: vec![
            component(b"alpha", Some(b"sha256:a"), &[]),
            component(b"beta", Some(b"sha256:missing"), &[]),
        ],
    };
    let r = run_pipeline(layers, app, b"final manifest");
    match r {
        Err(PipelineError::DigestNotFound { component_id, digest }) => {
            assert_eq!(component_id, b"beta".to_vec());
            assert_eq!(digest, b"sha256:missing".to_vec());
        }
        _ => panic!("expected DigestNotFound"),
    }
}

#[test]
fn precompile_with_real_engine() {
    // Compose "main" from a raw module (componentized by the real
    // encoder), then hand the composed binary to a real wasmtime
    // engine: the rewritten digest is the label of the engine's
    // output, and the provenance links hold.
    let engine = wasmtime::Engine::default();
    let layers = vec![
        layer(MediaType::Manifest, b"sha256:m1", b"manifest bytes"),
        layer(MediaType::Other, b"sha256:d1", &module_bytes()),
    ];
    let (mut p, _mb) = Pipeline::start(layers).unwrap();
    p.manifest_decoded(LockedApp {
        components: vec![component(b"main", Some(b"sha256:d1"), &[])],
    });
    let mut prov = p.begin_component().unwrap().unwrap();
    let composed = p
        .resolve_component_source(&b"sha256:d1".to_vec(), &mut prov)
        .unwrap();
    p.precompile_and_rewrite(&engine, composed.clone(), prov).unwrap();
    assert!(p.begin_component().unwrap().is_none());
    let digest = p.manifest().components[0].source_digest.clone().unwrap();
    let outputs = p.manifest_encoded(b"encoded".to_vec());
    assert_eq!(outputs.len(), 2);
    // The engine really compiled: the output layer holds its artifact,
    // not the composed input, and the digest labels that artifact.
    assert_ne!(outputs[0].bytes, composed);
    assert_eq!(digest, sha256_label(&outputs[0].bytes));
    assert!(outputs[0].parents.contains(1));
    assert_eq!(outputs[0].parents.len(), 1);
}

#[test]
fn provenance_covers_direct_references() {
    // Every directly referenced layer's index is in the seeded set, and
    // every recorded index is within the input range.
    let layers = vec![
        layer(MediaType::Manifest, b"sha256:m1", b"manifest bytes"),
        layer(MediaType::Other, b"sha256:dep1", &component_header_bytes()),
        layer(MediaType::Other, b"sha256:dep2", &component_header_bytes()),
        layer(MediaType::Other, b"sha256:src", &component_header_bytes()),
    ];
    let n = layers.len();
    let (mut p, _mb) = Pipeline::start(layers).unwrap();
    p.manifest_decoded(LockedApp {
        components: vec![component(
            b"main",
            Some(b"sha256:src"),
            &[(b"one", b"sha256:dep1"), (b"two", b"sha256:dep2")],
        )],
    });
    let prov = p.begin_component().unwrap().unwrap();
    assert!(prov.contains(3));
    assert!(prov.contains(1));
    assert!(prov.contains(2));
    assert_eq!(prov.len(), 3);
    for k in 0..prov.len() {
        assert!(prov.index_at(k) < n);
    }
}
