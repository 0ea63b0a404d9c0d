//! The code emitter's plan for a server type's `run` operation: the layers
//! of the application, in the order they are attached.
use vstd::prelude::*;
use crate::attr::{AttrPath, AttrPathModel};
use crate::config::{ApiGroup, ApiGroupModel, ConfigModel, Identity, IdentityModel, ServerConfig};

verus! {

/// One layer of the generated application.
pub enum Layer {
    /// Cookie-based identity middleware.
    Identity { name: String, age: i64 },
    /// Permissive cross-origin middleware.
    Cors,
    /// Handlers registered under a path scope.
    Scope { prefix: String, handlers: Vec<AttrPath> },
    /// Handlers registered directly.
    Direct { handlers: Vec<AttrPath> },
    /// The catch-all route that answers dot-free paths with the index document.
    IndexFallback,
    /// Static files served from the extraction directory, with a default document.
    StaticFiles { index_file: String },
}

pub ghost enum LayerModel {
    Identity { name: Seq<char>, age: i64 },
    Cors,
    Scope { prefix: Seq<char>, handlers: Seq<AttrPathModel> },
    Direct { handlers: Seq<AttrPathModel> },
    IndexFallback,
    StaticFiles { index_file: Seq<char> },
}

impl View for Layer {
    type V = LayerModel;

    open spec fn view(&self) -> LayerModel {
        match self {
            Layer::Identity { name, age } => LayerModel::Identity { name: name@, age: *age },
            Layer::Cors => LayerModel::Cors,
            Layer::Scope { prefix, handlers } => LayerModel::Scope {
                prefix: prefix@,
                handlers: handlers@.map_values(|p: AttrPath| p@),
            },
            Layer::Direct { handlers } => LayerModel::Direct {
                handlers: handlers@.map_values(|p: AttrPath| p@),
            },
            Layer::IndexFallback => LayerModel::IndexFallback,
            Layer::StaticFiles { index_file } => LayerModel::StaticFiles { index_file: index_file@ },
        }
    }
}

/// The layer that registers a group: under its scope when it declared a
/// prefix, directly otherwise.
pub open spec fn group_layer(g: ApiGroupModel) -> LayerModel {
    match g.prefix {
        Some(p) => LayerModel::Scope { prefix: p, handlers: g.handlers },
        None => LayerModel::Direct { handlers: g.handlers },
    }
}

pub open spec fn identity_layers(i: Option<IdentityModel>) -> Seq<LayerModel> {
    match i {
        Some(x) => seq![LayerModel::Identity { name: x.name, age: x.age }],
        None => Seq::empty(),
    }
}

pub open spec fn cors_layers(cors: bool) -> Seq<LayerModel> {
    if cors {
        seq![LayerModel::Cors]
    } else {
        Seq::empty()
    }
}

/// The layers of the application, in order: identity, cross-origin, each API
/// group, then the index fallback and the static files.
pub open spec fn layers_of(c: ConfigModel) -> Seq<LayerModel> {
    identity_layers(c.identity) + cors_layers(c.cors) + c.apis.map_values(
        |g: ApiGroupModel| group_layer(g),
    ) + seq![
        LayerModel::IndexFallback,
        LayerModel::StaticFiles { index_file: "index.html"@ },
    ]
}

fn group_to_layer(g: ApiGroup) -> (r: Layer)
    ensures
        r@ == group_layer(g@),
{
    match g.prefix {
        Some(prefix) => Layer::Scope { prefix, handlers: g.handlers },
        None => Layer::Direct { handlers: g.handlers },
    }
}

/// Plans the layers of the generated application from its configuration.
pub fn plan_layers(cfg: ServerConfig) -> (r: Vec<Layer>)
    ensures
        r@.map_values(|l: Layer| l@) == layers_of(cfg@),
{
    let ghost c = cfg@;
    let ServerConfig { static_files: _, apis, cors, identity } = cfg;
    let mut out: Vec<Layer> = Vec::new();
    match identity {
        Some(Identity { name, age }) => {
            out.push(Layer::Identity { name, age });
        },
        None => {},
    }
    if cors {
        out.push(Layer::Cors);
    }
    let ghost head = out@.map_values(|l: Layer| l@);
    assert(head =~= identity_layers(c.identity) + cors_layers(c.cors));
    let ghost all = apis@;
    let mut apis = apis;
    let mut i: usize = 0;
    assert(all.len() == apis.len());
    while apis.len() > 0
        invariant
            all.len() == c.apis.len(),
            all.len() <= usize::MAX,
            c.apis == all.map_values(|g: ApiGroup| g@),
            i + apis@.len() == all.len(),
            apis@ == all.subrange(i as int, all.len() as int),
            out@.map_values(|l: Layer| l@) == head + all.subrange(0, i as int).map_values(
                |g: ApiGroup| group_layer(g@),
            ),
        decreases apis@.len(),
    {
        let ghost before = out@;
        let g = apis.remove(0);
        assert(g == all[i as int]);
        out.push(group_to_layer(g));
        assert(all.subrange(0, i as int + 1).map_values(|g: ApiGroup| group_layer(g@)) =~= all.subrange(
            0,
            i as int,
        ).map_values(|g: ApiGroup| group_layer(g@)).push(group_layer(all[i as int]@)));
        assert(out@.map_values(|l: Layer| l@) =~= before.map_values(|l: Layer| l@).push(
            group_layer(all[i as int]@),
        ));
        i = i + 1;
        assert(apis@ =~= all.subrange(i as int, all.len() as int));
    }
    let ghost before = out@;
    out.push(Layer::IndexFallback);
    out.push(Layer::StaticFiles { index_file: String::from_str("index.html") });
    assert(all.subrange(0, i as int) =~= all);
    assert(all.map_values(|g: ApiGroup| group_layer(g@)) =~= c.apis.map_values(
        |g: ApiGroupModel| group_layer(g),
    ));
    assert(out@.map_values(|l: Layer| l@) =~= layers_of(c));
    out
}

} // verus!
