//! The configuration parser: interprets the `spa_server` attribute blocks of
//! a server type as a [`ServerConfig`].
use vstd::prelude::*;
use crate::attr::{is_ident, ident_of, str_eq, AttrPath, AttrPathModel, Meta};
use crate::lit::{FromLit, LitWrap};

verus! {

/// A group of handlers, registered under `prefix` when it has one.
pub struct ApiGroup {
    pub handlers: Vec<AttrPath>,
    pub prefix: Option<String>,
}

/// Settings of the cookie-based identity middleware.
pub struct Identity {
    pub name: String,
    /// The cookie's maximum age, in minutes.
    pub age: i64,
}

/// Everything that a server type's attributes configure.
pub struct ServerConfig {
    pub static_files: String,
    pub apis: Vec<ApiGroup>,
    pub cors: bool,
    pub identity: Option<Identity>,
}

pub ghost struct ApiGroupModel {
    pub handlers: Seq<AttrPathModel>,
    pub prefix: Option<Seq<char>>,
}

pub ghost struct IdentityModel {
    pub name: Seq<char>,
    pub age: i64,
}

pub ghost struct ConfigModel {
    pub static_files: Seq<char>,
    pub apis: Seq<ApiGroupModel>,
    pub cors: bool,
    pub identity: Option<IdentityModel>,
}

pub open spec fn opt_str_view(o: Option<String>) -> Option<Seq<char>> {
    match o {
        Some(s) => Some(s@),
        None => None,
    }
}

impl View for ApiGroup {
    type V = ApiGroupModel;

    open spec fn view(&self) -> ApiGroupModel {
        ApiGroupModel {
            handlers: self.handlers@.map_values(|p: AttrPath| p@),
            prefix: opt_str_view(self.prefix),
        }
    }
}

impl View for Identity {
    type V = IdentityModel;

    open spec fn view(&self) -> IdentityModel {
        IdentityModel { name: self.name@, age: self.age }
    }
}

pub open spec fn opt_identity_view(o: Option<Identity>) -> Option<IdentityModel> {
    match o {
        Some(i) => Some(i@),
        None => None,
    }
}

impl View for ServerConfig {
    type V = ConfigModel;

    open spec fn view(&self) -> ConfigModel {
        ConfigModel {
            static_files: self.static_files@,
            apis: self.apis@.map_values(|g: ApiGroup| g@),
            cors: self.cors,
            identity: opt_identity_view(self.identity),
        }
    }
}

/// Why the attributes could not be interpreted.
#[derive(Debug, PartialEq, Eq, Structural, Clone, Copy)]
pub enum ConfigError {
    /// An attribute list of another namespace stands beside `spa_server`.
    ForeignAttribute,
    /// No `static_files` path was given.
    MissingStaticFiles,
}

impl ConfigError {
    /// The diagnostic shown to the developer.
    pub fn message(&self) -> (r: String)
        ensures
            *self == ConfigError::MissingStaticFiles ==> r@
                == "must set static files path in attribute"@,
            *self == ConfigError::ForeignAttribute ==> r@ == "only support attribute spa_server"@,
    {
        match self {
            ConfigError::ForeignAttribute => String::from_str("only support attribute spa_server"),
            ConfigError::MissingStaticFiles => String::from_str(
                "must set static files path in attribute",
            ),
        }
    }
}

/// The first `key = literal` item, from index `i` on, whose literal reads as `T`.
pub open spec fn name_value_from<T: FromLit>(ms: Seq<Meta>, key: Seq<char>, i: int) -> Option<T>
    decreases ms.len() - i,
{
    if 0 <= i < ms.len() {
        match ms[i] {
            Meta::NameValue(p, lit) => if is_ident(p@, key) && T::lit_value(lit).is_some() {
                T::lit_value(lit)
            } else {
                name_value_from::<T>(ms, key, i + 1)
            },
            _ => name_value_from::<T>(ms, key, i + 1),
        }
    } else {
        None
    }
}

/// The last `key = literal` item among the first `n` whose literal reads as `T`.
pub open spec fn last_name_value<T: FromLit>(ms: Seq<Meta>, key: Seq<char>, n: int) -> Option<T>
    decreases n,
{
    if 0 < n <= ms.len() {
        match ms[n - 1] {
            Meta::NameValue(p, lit) => if is_ident(p@, key) && T::lit_value(lit).is_some() {
                T::lit_value(lit)
            } else {
                last_name_value::<T>(ms, key, n - 1)
            },
            _ => last_name_value::<T>(ms, key, n - 1),
        }
    } else {
        None
    }
}

/// Whether the bare path `key` stands among the items.
pub open spec fn has_path(ms: Seq<Meta>, key: Seq<char>) -> bool {
    exists|i: int|
        0 <= i < ms.len() && match #[trigger] ms[i] {
            Meta::Path(p) => is_ident(p@, key),
            _ => false,
        }
}

/// The first `key = literal` item whose literal reads as `T`.
pub fn get_name_value<T: FromLit>(metas: &Vec<Meta>, key: &str) -> (r: Option<T>)
    ensures
        r == name_value_from::<T>(metas@, key@, 0),
{
    let mut i: usize = 0;
    while i < metas.len()
        invariant
            i <= metas@.len(),
            name_value_from::<T>(metas@, key@, 0) == name_value_from::<T>(metas@, key@, i as int),
        decreases metas@.len() - i,
    {
        match &metas[i] {
            Meta::NameValue(p, lit) => {
                if p.is_ident(key) {
                    let lw = LitWrap { inner: lit };
                    match lw.parse::<T>() {
                        Ok(v) => {
                            return Some(v);
                        },
                        Err(_) => {},
                    }
                }
            },
            _ => {},
        }
        i = i + 1;
    }
    None
}

/// Whether the bare path `key` stands among the items.
pub fn get_path(metas: &Vec<Meta>, key: &str) -> (r: bool)
    ensures
        r == has_path(metas@, key@),
{
    let mut i: usize = 0;
    while i < metas.len()
        invariant
            i <= metas@.len(),
            forall|j: int|
                0 <= j < i ==> match #[trigger] metas@[j] {
                    Meta::Path(p) => !is_ident(p@, key@),
                    _ => true,
                },
        decreases metas@.len() - i,
    {
        match &metas[i] {
            Meta::Path(p) => {
                if p.is_ident(key) {
                    return true;
                }
            },
            _ => {},
        }
        i = i + 1;
    }
    false
}

/// The name and age that an `identity(...)` block sets; the identity is kept
/// only when the name is non-empty and the age non-zero.
pub open spec fn identity_of(ms: Seq<Meta>) -> Option<IdentityModel> {
    let name = match last_name_value::<String>(ms, "name"@, ms.len() as int) {
        Some(s) => s@,
        None => Seq::<char>::empty(),
    };
    let age = match last_name_value::<i64>(ms, "age"@, ms.len() as int) {
        Some(a) => a,
        None => 0i64,
    };
    if name.len() > 0 && age != 0 {
        Some(IdentityModel { name, age })
    } else {
        None
    }
}

/// Reads the items of an `identity(...)` block.
pub fn parse_identity(nested: &Vec<Meta>) -> (r: Option<Identity>)
    ensures
        opt_identity_view(r) == identity_of(nested@),
{
    let mut name = String::new();
    let mut age: i64 = 0;
    let mut i: usize = 0;
    proof {
        reveal_strlit("name");
        reveal_strlit("age");
    }
    while i < nested.len()
        invariant
            i <= nested@.len(),
            name@ == match last_name_value::<String>(nested@, "name"@, i as int) {
                Some(s) => s@,
                None => Seq::<char>::empty(),
            },
            age == match last_name_value::<i64>(nested@, "age"@, i as int) {
                Some(a) => a,
                None => 0i64,
            },
            "name"@.len() == 4,
            "age"@.len() == 3,
        decreases nested@.len() - i,
    {
        match &nested[i] {
            Meta::NameValue(p, lit) => {
                let lw = LitWrap { inner: lit };
                if p.is_ident("name") {
                    match lw.parse::<String>() {
                        Ok(v) => {
                            name = v;
                        },
                        Err(_) => {},
                    }
                } else if p.is_ident("age") {
                    match lw.parse::<i64>() {
                        Ok(v) => {
                            age = v;
                        },
                        Err(_) => {},
                    }
                }
            },
            _ => {},
        }
        i = i + 1;
    }
    if name.as_str().unicode_len() > 0 && age != 0 {
        Some(Identity { name, age })
    } else {
        None
    }
}

/// The bare paths among the first `n` items, in order.
pub open spec fn handler_paths(ms: Seq<Meta>, n: int) -> Seq<AttrPathModel>
    decreases n,
{
    if 0 < n <= ms.len() {
        let prev = handler_paths(ms, n - 1);
        match ms[n - 1] {
            Meta::Path(p) => prev.push(p@),
            _ => prev,
        }
    } else {
        Seq::empty()
    }
}

/// What an `api(...)` block declares: its handlers in order and its last
/// string `prefix`.
pub open spec fn api_group_of(ms: Seq<Meta>) -> ApiGroupModel {
    ApiGroupModel {
        handlers: handler_paths(ms, ms.len() as int),
        prefix: opt_str_view(last_name_value::<String>(ms, "prefix"@, ms.len() as int)),
    }
}

/// Reads the items of an `api(...)` block.
pub fn parse_api(nested: &Vec<Meta>) -> (r: ApiGroup)
    ensures
        r@ == api_group_of(nested@),
{
    let mut handlers: Vec<AttrPath> = Vec::new();
    let mut prefix: Option<String> = None;
    let mut i: usize = 0;
    while i < nested.len()
        invariant
            i <= nested@.len(),
            handlers@.map_values(|p: AttrPath| p@) == handler_paths(nested@, i as int),
            opt_str_view(prefix) == opt_str_view(
                last_name_value::<String>(nested@, "prefix"@, i as int),
            ),
        decreases nested@.len() - i,
    {
        let ghost before = handlers@;
        match &nested[i] {
            Meta::Path(p) => {
                handlers.push(p.duplicate());
                assert(handlers@.map_values(|p: AttrPath| p@) =~= before.map_values(
                    |p: AttrPath| p@,
                ).push(p@));
            },
            Meta::NameValue(p, lit) => {
                if p.is_ident("prefix") {
                    let lw = LitWrap { inner: lit };
                    match lw.parse::<String>() {
                        Ok(v) => {
                            prefix = Some(v);
                        },
                        Err(_) => {},
                    }
                }
            },
            _ => {},
        }
        i = i + 1;
    }
    ApiGroup { handlers, prefix }
}

/// The groups that the first `n` items of an `apis(...)` block declare.
pub open spec fn apis_of(ms: Seq<Meta>, n: int) -> Seq<ApiGroupModel>
    decreases n,
{
    if 0 < n <= ms.len() {
        let prev = apis_of(ms, n - 1);
        match ms[n - 1] {
            Meta::List(p, inner) => if is_ident(p@, "api"@) {
                prev.push(api_group_of(inner@))
            } else {
                prev
            },
            _ => prev,
        }
    } else {
        Seq::empty()
    }
}

/// Reads the items of an `apis(...)` block.
pub fn parse_apis(nested: &Vec<Meta>) -> (r: Vec<ApiGroup>)
    ensures
        r@.map_values(|g: ApiGroup| g@) == apis_of(nested@, nested@.len() as int),
{
    let mut groups: Vec<ApiGroup> = Vec::new();
    let mut i: usize = 0;
    while i < nested.len()
        invariant
            i <= nested@.len(),
            groups@.map_values(|g: ApiGroup| g@) == apis_of(nested@, i as int),
        decreases nested@.len() - i,
    {
        let ghost before = groups@;
        match &nested[i] {
            Meta::List(p, inner) => {
                if p.is_ident("api") {
                    groups.push(parse_api(inner));
                    assert(groups@.map_values(|g: ApiGroup| g@) =~= before.map_values(
                        |g: ApiGroup| g@,
                    ).push(api_group_of(inner@)));
                }
            },
            _ => {},
        }
        i = i + 1;
    }
    groups
}

/// What the first `n` items of a recognized attribute add to `st`: the groups
/// of each `apis(...)` block, and the identity of each `identity(...)` block
/// that keeps one.
pub open spec fn absorb(st: ConfigModel, ms: Seq<Meta>, n: int) -> ConfigModel
    decreases n,
{
    if 0 < n <= ms.len() {
        let prev = absorb(st, ms, n - 1);
        match ms[n - 1] {
            Meta::List(p, inner) => if is_ident(p@, "apis"@) {
                ConfigModel { apis: prev.apis + apis_of(inner@, inner@.len() as int), ..prev }
            } else if is_ident(p@, "identity"@) {
                match identity_of(inner@) {
                    Some(x) => ConfigModel { identity: Some(x), ..prev },
                    None => prev,
                }
            } else {
                prev
            },
            _ => prev,
        }
    } else {
        st
    }
}

/// Cross-origin handling is on when the bare flag `cors` is present, or else
/// when the first readable `cors = <bool>` says so.
pub open spec fn cors_of(ms: Seq<Meta>) -> bool {
    has_path(ms, "cors"@) || name_value_from::<bool>(ms, "cors"@, 0) == Some(true)
}

/// The configuration before any attribute is read.
pub open spec fn initial_config() -> ConfigModel {
    ConfigModel {
        static_files: Seq::<char>::empty(),
        apis: Seq::empty(),
        cors: false,
        identity: None,
    }
}

/// The effect of one attribute of the server type on the configuration.
pub open spec fn apply_attr(st: ConfigModel, m: Meta) -> Result<ConfigModel, ConfigError> {
    match m {
        Meta::List(p, nested) => if ident_of(p@).is_some() && ident_of(p@) != Some("spa_server"@) {
            Err(ConfigError::ForeignAttribute)
        } else {
            match name_value_from::<String>(nested@, "static_files"@, 0) {
                None => Err(ConfigError::MissingStaticFiles),
                Some(sf) => Ok(
                    absorb(
                        ConfigModel { static_files: sf@, cors: cors_of(nested@), ..st },
                        nested@,
                        nested@.len() as int,
                    ),
                ),
            }
        },
        _ => Ok(st),
    }
}

/// The configuration after the first `n` attributes, or the first error.
pub open spec fn fold_attrs(attrs: Seq<Meta>, n: int) -> Result<ConfigModel, ConfigError>
    decreases n,
{
    if 0 < n <= attrs.len() {
        match fold_attrs(attrs, n - 1) {
            Ok(st) => apply_attr(st, attrs[n - 1]),
            Err(e) => Err(e),
        }
    } else {
        Ok(initial_config())
    }
}

pub open spec fn is_list(m: Meta) -> bool {
    m is List
}

/// Whether any attribute list stands among the attributes.
pub open spec fn has_list(attrs: Seq<Meta>) -> bool {
    exists|i: int| 0 <= i < attrs.len() && is_list(#[trigger] attrs[i])
}

/// The configuration that the attributes of a server type declare. Without
/// any `spa_server` attribute the mandatory `static_files` path is missing.
pub open spec fn config_of(attrs: Seq<Meta>) -> Result<ConfigModel, ConfigError> {
    match fold_attrs(attrs, attrs.len() as int) {
        Ok(st) => if has_list(attrs) {
            Ok(st)
        } else {
            Err(ConfigError::MissingStaticFiles)
        },
        Err(e) => Err(e),
    }
}

/// Once an attribute fails, the whole configuration fails with its error.
proof fn lemma_fold_error_persists(attrs: Seq<Meta>, k: int, e: ConfigError)
    requires
        0 <= k <= attrs.len(),
        fold_attrs(attrs, k) == Err::<ConfigModel, ConfigError>(e),
    ensures
        fold_attrs(attrs, attrs.len() as int) == Err::<ConfigModel, ConfigError>(e),
    decreases attrs.len() - k,
{
    if k < attrs.len() {
        lemma_fold_error_persists(attrs, k + 1, e);
    }
}

/// Adds what the items of a recognized attribute declare to `opt`.
fn absorb_items(nested: &Vec<Meta>, opt: &mut ServerConfig)
    ensures
        final(opt)@ == absorb(old(opt)@, nested@, nested@.len() as int),
{
    let ghost init = opt@;
    let mut i: usize = 0;
    while i < nested.len()
        invariant
            i <= nested@.len(),
            opt@ == absorb(init, nested@, i as int),
        decreases nested@.len() - i,
    {
        match &nested[i] {
            Meta::List(p, inner) => {
                if p.is_ident("apis") {
                    let ghost before = opt.apis@;
                    let mut groups = parse_apis(inner);
                    let ghost added = groups@;
                    opt.apis.append(&mut groups);
                    assert(opt.apis@.map_values(|g: ApiGroup| g@) =~= before.map_values(
                        |g: ApiGroup| g@,
                    ) + added.map_values(|g: ApiGroup| g@));
                } else if p.is_ident("identity") {
                    match parse_identity(inner) {
                        Some(x) => {
                            opt.identity = Some(x);
                        },
                        None => {},
                    }
                }
            },
            _ => {},
        }
        i = i + 1;
    }
}

/// Interprets the attributes of a server type.
pub fn parse_config(attrs: &Vec<Meta>) -> (r: Result<ServerConfig, ConfigError>)
    ensures
        match r {
            Ok(c) => config_of(attrs@) == Ok::<ConfigModel, ConfigError>(c@),
            Err(e) => config_of(attrs@) == Err::<ConfigModel, ConfigError>(e),
        },
{
    let mut opt = ServerConfig {
        static_files: String::new(),
        apis: Vec::new(),
        cors: false,
        identity: None,
    };
    let mut seen = false;
    assert(opt@.apis =~= Seq::empty());
    assert(opt@ == initial_config());
    let mut i: usize = 0;
    while i < attrs.len()
        invariant
            i <= attrs@.len(),
            fold_attrs(attrs@, i as int) == Ok::<ConfigModel, ConfigError>(opt@),
            seen == exists|j: int| 0 <= j < i && is_list(#[trigger] attrs@[j]),
        decreases attrs@.len() - i,
    {
        match &attrs[i] {
            Meta::List(p, nested) => {
                match p.get_ident() {
                    Some(id) => {
                        if !str_eq(id.as_str(), "spa_server") {
                            proof {
                                lemma_fold_error_persists(
                                    attrs@,
                                    i + 1,
                                    ConfigError::ForeignAttribute,
                                );
                            }
                            return Err(ConfigError::ForeignAttribute);
                        }
                    },
                    None => {},
                }
                match get_name_value::<String>(nested, "static_files") {
                    Some(sf) => {
                        opt.static_files = sf;
                    },
                    None => {
                        proof {
                            lemma_fold_error_persists(
                                attrs@,
                                i + 1,
                                ConfigError::MissingStaticFiles,
                            );
                        }
                        return Err(ConfigError::MissingStaticFiles);
                    },
                }
                opt.cors = get_path(nested, "cors");
                if !opt.cors {
                    match get_name_value::<bool>(nested, "cors") {
                        Some(c) => {
                            opt.cors = c;
                        },
                        None => {},
                    }
                }
                absorb_items(nested, &mut opt);
                seen = true;
                assert(is_list(attrs@[i as int]));
            },
            _ => {},
        }
        i = i + 1;
    }
    assert(attrs@.subrange(0, attrs@.len() as int) =~= attrs@);
    if !seen {
        return Err(ConfigError::MissingStaticFiles);
    }
    Ok(opt)
}

/// Whether an attribute list belongs to the recognized namespace (a
/// multi-segment path is let through as well).
pub open spec fn is_recognized(m: Meta) -> bool {
    match m {
        Meta::List(p, _) => ident_of(p@).is_none() || ident_of(p@) == Some("spa_server"@),
        _ => false,
    }
}

/// Whether an attribute list gives a readable `static_files` path.
pub open spec fn gives_static_files(m: Meta) -> bool {
    match m {
        Meta::List(_, nested) => name_value_from::<String>(nested@, "static_files"@, 0).is_some(),
        _ => false,
    }
}

proof fn lemma_fold_static_files(attrs: Seq<Meta>, n: int)
    requires
        0 <= n <= attrs.len(),
        forall|i: int| 0 <= i < attrs.len() && is_list(#[trigger] attrs[i]) ==> is_recognized(attrs[i]),
    ensures
        (fold_attrs(attrs, n) is Ok) <==> (forall|i: int|
            0 <= i < n && is_list(#[trigger] attrs[i]) ==> gives_static_files(attrs[i])),
        fold_attrs(attrs, n) is Err ==> fold_attrs(attrs, n) == Err::<ConfigModel, ConfigError>(
            ConfigError::MissingStaticFiles,
        ),
    decreases n,
{
    if n > 0 {
        lemma_fold_static_files(attrs, n - 1);
        let m = attrs[n - 1];
        assert(is_list(m) ==> is_recognized(m));
    }
}

/// Generation succeeds exactly when every attribute list (all of them in the
/// recognized namespace) gives the mandatory `static_files` path and at least
/// one is present; otherwise it fails with the missing-path diagnostic.
pub proof fn lemma_static_files_mandatory(attrs: Seq<Meta>)
    requires
        forall|i: int| 0 <= i < attrs.len() && is_list(#[trigger] attrs[i]) ==> is_recognized(attrs[i]),
    ensures
        (config_of(attrs) is Ok) <==> (has_list(attrs) && forall|i: int|
            0 <= i < attrs.len() && is_list(#[trigger] attrs[i]) ==> gives_static_files(attrs[i])),
        config_of(attrs) is Err ==> config_of(attrs) == Err::<ConfigModel, ConfigError>(
            ConfigError::MissingStaticFiles,
        ),
{
    lemma_fold_static_files(attrs, attrs.len() as int);
}

proof fn lemma_absorb_keeps_flags(st: ConfigModel, ms: Seq<Meta>, n: int)
    ensures
        absorb(st, ms, n).cors == st.cors,
        absorb(st, ms, n).static_files == st.static_files,
    decreases n,
{
    if 0 < n <= ms.len() {
        lemma_absorb_keeps_flags(st, ms, n - 1);
    }
}

/// The bare `cors` flag enables cross-origin handling whatever any
/// `cors = <bool>` item says.
pub proof fn lemma_cors_flag_wins(st: ConfigModel, p: AttrPath, nested: Vec<Meta>)
    requires
        has_path(nested@, "cors"@),
        apply_attr(st, Meta::List(p, nested)) is Ok,
    ensures
        cors_of(nested@),
        apply_attr(st, Meta::List(p, nested))->Ok_0.cors,
{
    match name_value_from::<String>(nested@, "static_files"@, 0) {
        Some(sf) => lemma_absorb_keeps_flags(
            ConfigModel { static_files: sf@, cors: cors_of(nested@), ..st },
            nested@,
            nested@.len() as int,
        ),
        None => {},
    }
}

/// Without the bare flag, the first readable `cors = <bool>` decides.
pub proof fn lemma_cors_name_value(ms: Seq<Meta>, b: bool)
    requires
        !has_path(ms, "cors"@),
        name_value_from::<bool>(ms, "cors"@, 0) == Some(b),
    ensures
        cors_of(ms) == b,
{
}

/// An identity is kept only with a non-empty name and a non-zero age.
pub proof fn lemma_identity_complete(ms: Seq<Meta>)
    ensures
        match identity_of(ms) {
            Some(x) => x.name.len() > 0 && x.age != 0,
            None => true,
        },
        identity_of(ms) is Some <==> ((last_name_value::<String>(ms, "name"@, ms.len() as int) matches Some(
            s,
        ) && s@.len() > 0) && (last_name_value::<i64>(ms, "age"@, ms.len() as int) matches Some(a)
            && a != 0)),
{
}

} // verus!
