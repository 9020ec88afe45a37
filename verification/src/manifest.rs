use vstd::prelude::*;

verus! {

/// One named dependency edge of a component. The dependency is located
/// among the input layers by its content digest.
pub struct DependencyBinding {
    pub name: Vec<u8>,
    pub digest: Vec<u8>,
}

/// Spec-level image of a `DependencyBinding`.
#[verifier::ext_equal]
pub ghost struct BindingModel {
    pub name: Seq<u8>,
    pub digest: Seq<u8>,
}

impl View for DependencyBinding {
    type V = BindingModel;

    open spec fn view(&self) -> BindingModel {
        BindingModel { name: self.name@, digest: self.digest@ }
    }
}

/// One component of the application manifest: an id, a source reference
/// (a content digest, rewritten in place after precompilation), and the
/// named dependency bindings, which are cleared once the component is
/// composed and precompiled — an empty binding set marks the component
/// as self-contained.
pub struct LockedComponent {
    pub id: Vec<u8>,
    pub source_digest: Option<Vec<u8>>,
    pub dependencies: Vec<DependencyBinding>,
}

/// Spec-level image of a `LockedComponent`.
#[verifier::ext_equal]
pub ghost struct ComponentModel {
    pub id: Seq<u8>,
    pub source_digest: Option<Seq<u8>>,
    pub dependencies: Seq<BindingModel>,
}

impl View for LockedComponent {
    type V = ComponentModel;

    open spec fn view(&self) -> ComponentModel {
        ComponentModel {
            id: self.id@,
            source_digest: match self.source_digest {
                Some(d) => Some(d@),
                None => None,
            },
            dependencies: self.dependencies@.map(|_k: int, b: DependencyBinding| b@),
        }
    }
}

/// The decoded application manifest: the components in manifest order.
/// It is mutated in place as components are precompiled and then
/// re-encoded as the final output layer.
pub struct LockedApp {
    pub components: Vec<LockedComponent>,
}

impl View for LockedApp {
    type V = Seq<ComponentModel>;

    open spec fn view(&self) -> Seq<ComponentModel> {
        self.components@.map(|_k: int, c: LockedComponent| c@)
    }
}

/// The digests of a component's dependency bindings, in binding order.
pub open spec fn binding_digests(deps: Seq<BindingModel>) -> Seq<Seq<u8>> {
    deps.map(|_k: int, b: BindingModel| b.digest)
}

/// Every digest a component declares directly: its source digest first,
/// then each dependency binding's, in binding order.
pub open spec fn direct_digests(c: ComponentModel) -> Seq<Seq<u8>> {
    match c.source_digest {
        Some(d) => seq![d] + binding_digests(c.dependencies),
        None => binding_digests(c.dependencies),
    }
}

/// The component as the pipeline leaves it once its composed binary has
/// been precompiled: the same id, the source digest replaced by the
/// given content-digest label of the compiled bytes, and the dependency
/// bindings cleared.
pub open spec fn rewritten(c: ComponentModel, digest: Seq<u8>) -> ComponentModel {
    ComponentModel { id: c.id, source_digest: Some(digest), dependencies: Seq::empty() }
}

} // verus!
