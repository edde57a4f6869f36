//! Config-driven model routing for pipeline capabilities.
//!
//! Reads a TOML text that maps capability names to provider + model pairs.
//! Unknown capabilities fall back to a configurable default.

use crate::json::{items_view, json_view, member, members_view, Json, JsonView};
use crate::text::{plus, same_text};
use vstd::prelude::*;
use vstd::string::*;

verus! {

/// A resolved provider + model pair for a given capability.
#[derive(Debug, Clone, PartialEq, Eq)]
pub struct ModelRoute {
    pub provider: String,
    pub model: String,
}

/// What a [`ModelRoute`] says.
pub struct RouteView {
    pub provider: Seq<char>,
    pub model: Seq<char>,
}

impl View for ModelRoute {
    type V = RouteView;

    open spec fn view(&self) -> RouteView {
        RouteView { provider: self.provider@, model: self.model@ }
    }
}

impl ModelRoute {
    /// A second route to the same model.
    pub fn copy(&self) -> (r: ModelRoute)
        ensures
            r@ == self@,
    {
        ModelRoute { provider: self.provider.clone(), model: self.model.clone() }
    }
}

/// Routes capability names (e.g. "planning", "tts") to model providers.
#[derive(Debug)]
pub struct ProviderRouter {
    pub routes: Vec<(String, ModelRoute)>,
    pub default_provider: String,
    pub default_model: String,
}

/// What a [`ProviderRouter`] says.
pub struct RouterView {
    pub routes: Map<Seq<char>, RouteView>,
    pub default: RouteView,
}

/// The routes by capability.
pub open spec fn routes_view(routes: Seq<(String, ModelRoute)>) -> Map<Seq<char>, RouteView>
    decreases routes.len(),
{
    if routes.len() == 0 {
        Map::empty()
    } else {
        routes_view(routes.drop_last()).insert(routes.last().0@, routes.last().1@)
    }
}

impl View for ProviderRouter {
    type V = RouterView;

    open spec fn view(&self) -> RouterView {
        RouterView {
            routes: routes_view(self.routes@),
            default: RouteView {
                provider: self.default_provider@,
                model: self.default_model@,
            },
        }
    }
}

impl RouterView {
    /// The route for a capability: its own or, without one, the default.
    pub open spec fn route(self, capability: Seq<char>) -> RouteView {
        if self.routes.contains_key(capability) {
            self.routes[capability]
        } else {
            self.default
        }
    }
}

// ---------------------------------------------------------------------------
// TOML
// ---------------------------------------------------------------------------

#[verifier::external_type_specification]
#[verifier::external_body]
pub struct ExTomlValue(toml::Value);

#[verifier::external_type_specification]
#[verifier::external_body]
pub struct ExTomlError(toml::de::Error);

/// What a `toml::Value` holds. Strings, arrays and tables are told apart; all
/// other values are `Null`.
pub uninterp spec fn toml_value_of(v: toml::Value) -> JsonView;

/// What `toml::from_str` reads from a text as a table of tables, where it accepts
/// the text as one.
pub uninterp spec fn parsed_tables(text: Seq<char>) -> Option<JsonView>;

/// What `toml::from_str` reads from a text, where it accepts the text.
pub uninterp spec fn parsed_toml(text: Seq<char>) -> Option<JsonView>;

/// One layer of a `toml::Value`.
pub enum TomlLayer {
    Text(String),
    Array(Vec<toml::Value>),
    Table(Vec<(String, toml::Value)>),
    Other,
}

pub open spec fn toml_members(members: Seq<(String, toml::Value)>) -> Map<Seq<char>, JsonView>
    decreases members.len(),
{
    if members.len() == 0 {
        Map::empty()
    } else {
        toml_members(members.drop_last()).insert(
            members.last().0@,
            toml_value_of(members.last().1),
        )
    }
}

/// No two members have one name.
pub open spec fn distinct_keys(members: Seq<(String, toml::Value)>) -> bool {
    forall|i: int, j: int|
        0 <= i < j < members.len() ==> (#[trigger] members[i]).0@ != (#[trigger] members[j]).0@
}

impl TomlLayer {
    pub open spec fn meaning(self) -> JsonView {
        match self {
            TomlLayer::Text(s) => JsonView::Text(s@),
            TomlLayer::Array(items) => JsonView::Array(
                Seq::new(items@.len(), |i: int| toml_value_of(items@[i])),
            ),
            TomlLayer::Table(members) => JsonView::Object(toml_members(members@)),
            TomlLayer::Other => JsonView::Null,
        }
    }
}

/// Parses a text as a TOML document: `toml::from_str`.
///
/// Claimed: whether the text is accepted and what is read from it depend on
/// the text alone. Nothing is said of what is read. A table below the top that
/// begins with the key under which the crate hides datetimes is read as a
/// datetime.
#[verifier::external_body]
fn parse_toml_value(text: &str) -> (r: Result<toml::Value, toml::de::Error>)
    ensures
        match r {
            Ok(v) => parsed_toml(text@) == Some(toml_value_of(v)),
            Err(_) => parsed_toml(text@) is None,
        },
{
    toml::from_str::<toml::Table>(text).map(toml::Value::Table)
}

/// Parses a text as a TOML document in which each value is a table:
/// `toml::from_str`.
///
/// Claimed: whether the text is accepted and what is read from it depend on
/// the text alone. Nothing is said of what is read. No key of these tables has a
/// meaning of its own.
#[verifier::external_body]
fn parse_toml_tables(text: &str) -> (r: Result<toml::Value, toml::de::Error>)
    ensures
        match r {
            Ok(v) => parsed_tables(text@) == Some(toml_value_of(v)),
            Err(_) => parsed_tables(text@) is None,
        },
{
    toml::from_str::<std::collections::BTreeMap<String, toml::Table>>(text).map(
        |tables| {
            let entries = tables.into_iter().map(|(name, table)| (name, toml::Value::Table(table)));
            toml::Value::Table(entries.collect())
        },
    )
}

/// Takes a `toml::Value` apart by its variants.
///
/// Claimed: the parts mean what the value means, and the members of a table
/// have distinct names.
#[verifier::external_body]
fn toml_layer_of(value: toml::Value) -> (r: TomlLayer)
    ensures
        r.meaning() == toml_value_of(value),
        r matches TomlLayer::Table(members) ==> distinct_keys(members@),
{
    match value {
        toml::Value::String(s) => TomlLayer::Text(s),
        toml::Value::Integer(_) => TomlLayer::Other,
        toml::Value::Float(_) => TomlLayer::Other,
        toml::Value::Boolean(_) => TomlLayer::Other,
        toml::Value::Datetime(_) => TomlLayer::Other,
        toml::Value::Array(items) => TomlLayer::Array(items),
        toml::Value::Table(members) => TomlLayer::Table(members.into_iter().collect()),
    }
}

/// The strings, arrays and tables of a TOML value.
pub fn json_from_toml(value: toml::Value) -> (r: Json)
    ensures
        r@ == toml_value_of(value),
    decreases toml_value_of(value),
{
    match toml_layer_of(value) {
        TomlLayer::Other => Json::Null,
        TomlLayer::Text(s) => Json::Text(s),
        TomlLayer::Array(values) => {
            let ghost all = values@;
            let mut out: Vec<Json> = Vec::new();
            for v in it: values.into_iter()
                invariant
                    it.seq() == all,
                    toml_value_of(value) == JsonView::Array(
                        Seq::new(all.len(), |i: int| toml_value_of(all[i])),
                    ),
                    out@.len() == it.index(),
                    forall|j: int|
                        0 <= j < it.index() ==> (#[trigger] out@[j])@ == toml_value_of(all[j]),
            {
                proof {
                    let parts = toml_value_of(value)->Array_0;
                    assert(parts[it.index() as int] == toml_value_of(v));
                    assert(decreases_to!(toml_value_of(value) => parts[it.index() as int]));
                }
                out.push(json_from_toml(v));
            }
            assert(items_view(out@) =~= toml_value_of(value)->Array_0);
            Json::Array(out)
        },
        TomlLayer::Table(values) => {
            let ghost all = values@;
            let mut out: Vec<(String, Json)> = Vec::new();
            for pair in it: values.into_iter()
                invariant
                    it.seq() == all,
                    distinct_keys(all),
                    toml_value_of(value) == JsonView::Object(toml_members(all)),
                    members_view(out@) == toml_members(all.take(it.index() as int)),
            {
                let (name, v) = pair;
                let ghost before = out@;
                proof {
                    let i = it.index() as int;
                    lemma_toml_member(all, i);
                    assert(decreases_to!(
                        toml_value_of(value) => toml_value_of(value)->Object_0[all[i].0@]
                    ));
                }
                out.push((name, json_from_toml(v)));
                assert(out@.drop_last() =~= before);
                assert(all.take(it.index() as int + 1).drop_last() =~= all.take(it.index() as int));
            }
            assert(all.take(all.len() as int) =~= all);
            Json::Object(out)
        },
    }
}

proof fn lemma_toml_member(members: Seq<(String, toml::Value)>, i: int)
    requires
        0 <= i < members.len(),
        distinct_keys(members),
    ensures
        toml_members(members).dom().finite(),
        toml_members(members).contains_key(members[i].0@),
        toml_members(members)[members[i].0@] == toml_value_of(members[i].1),
    decreases members.len(),
{
    let rest = members.drop_last();
    if i < rest.len() {
        lemma_toml_member(rest, i);
        assert(members[i].0@ != members.last().0@);
    } else if rest.len() > 0 {
        lemma_toml_member(rest, 0);
    } else {
        assert(toml_members(rest).dom() =~= Set::empty());
    }
    assert(toml_members(members).dom() =~= toml_members(rest).dom().insert(members.last().0@));
}

/// What is read from a TOML document: a table of tables, in which every key
/// counts as it stands, or whatever else it is.
pub open spec fn read_toml(text: Seq<char>) -> Option<JsonView> {
    match parsed_tables(text) {
        Some(v) => Some(v),
        None => parsed_toml(text),
    }
}

/// Reads a text as a TOML document, where it is one.
pub fn parse_toml(text: &str) -> (r: Option<Json>)
    ensures
        match r {
            Some(v) => read_toml(text@) == Some(v@),
            None => read_toml(text@) is None,
        },
{
    match parse_toml_tables(text) {
        Ok(v) => Some(json_from_toml(v)),
        Err(_) => match parse_toml_value(text) {
            Ok(v) => Some(json_from_toml(v)),
            Err(_) => None,
        },
    }
}

// ---------------------------------------------------------------------------
// Routes
// ---------------------------------------------------------------------------

/// The route that an entry of the configuration gives: a table with the two
/// texts, or an array that begins with them.
pub open spec fn route_of(entry: JsonView) -> Option<RouteView> {
    match entry {
        JsonView::Object(_) => route_from(entry.at("provider"@), entry.at("model"@)),
        JsonView::Array(items) => if items.len() >= 2 {
            route_from(items[0], items[1])
        } else {
            None
        },
        _ => None,
    }
}

pub open spec fn route_from(provider: JsonView, model: JsonView) -> Option<RouteView> {
    match (provider, model) {
        (JsonView::Text(provider), JsonView::Text(model)) => Some(RouteView { provider, model }),
        _ => None,
    }
}

/// Whether each entry of a configuration gives a route.
pub open spec fn all_routes(entries: Map<Seq<char>, JsonView>) -> bool {
    forall|capability: Seq<char>| #[trigger]
        entries.contains_key(capability) ==> route_of(entries[capability]) is Some
}

/// The routes of a configuration, where all its entries give one.
pub open spec fn configured_routes(config: Option<JsonView>) -> Option<Map<Seq<char>, RouteView>> {
    match config {
        Some(JsonView::Object(entries)) => if all_routes(entries) {
            Some(entries.map_values(|entry: JsonView| route_of(entry)->0))
        } else {
            None
        },
        _ => None,
    }
}

fn route_pair(provider: &Json, model: &Json) -> (r: Option<ModelRoute>)
    ensures
        match r {
            Some(route) => route_from(provider@, model@) == Some(route@),
            None => route_from(provider@, model@) is None,
        },
{
    match (provider, model) {
        (Json::Text(provider), Json::Text(model)) => Some(
            ModelRoute { provider: provider.clone(), model: model.clone() },
        ),
        _ => None,
    }
}

fn read_route(entry: &Json) -> (r: Option<ModelRoute>)
    ensures
        match r {
            Some(route) => route_of(entry@) == Some(route@),
            None => route_of(entry@) is None,
        },
{
    match entry {
        Json::Object(_) => match (entry.get("provider"), entry.get("model")) {
            (Some(provider), Some(model)) => route_pair(provider, model),
            _ => None,
        },
        Json::Array(items) => {
            assert(items_view(items@).len() == items@.len());
            if items.len() >= 2 {
                route_pair(&items[0], &items[1])
            } else {
                None
            }
        },
        _ => None,
    }
}

proof fn lemma_route_decides(routes: Seq<(String, ModelRoute)>, i: int, capability: Seq<char>)
    requires
        0 <= i < routes.len(),
        routes[i].0@ == capability,
        forall|j: int| i < j < routes.len() ==> (#[trigger] routes[j]).0@ != capability,
    ensures
        routes_view(routes).contains_key(capability),
        routes_view(routes)[capability] == routes[i].1@,
    decreases routes.len(),
{
    if i < routes.len() - 1 {
        lemma_route_decides(routes.drop_last(), i, capability);
    }
}

proof fn lemma_no_route(routes: Seq<(String, ModelRoute)>, capability: Seq<char>)
    requires
        forall|j: int| 0 <= j < routes.len() ==> (#[trigger] routes[j]).0@ != capability,
    ensures
        !routes_view(routes).contains_key(capability),
    decreases routes.len(),
{
    if routes.len() > 0 {
        lemma_no_route(routes.drop_last(), capability);
    }
}

proof fn lemma_routed_is_listed(routes: Seq<(String, ModelRoute)>, capability: Seq<char>)
    requires
        routes_view(routes).contains_key(capability),
    ensures
        exists|i: int| 0 <= i < routes.len() && (#[trigger] routes[i]).0@ == capability,
{
    if forall|j: int| 0 <= j < routes.len() ==> (#[trigger] routes[j]).0@ != capability {
        lemma_no_route(routes, capability);
    }
}

/// Whether one of the first `i` members has that name.
spec fn named_before(members: Seq<(String, Json)>, name: Seq<char>, i: int) -> bool {
    exists|j: int| 0 <= j < i && (#[trigger] members[j]).0@ == name
}

proof fn lemma_named_in_view(members: Seq<(String, Json)>, i: int)
    requires
        0 <= i < members.len(),
    ensures
        members_view(members).contains_key(members[i].0@),
    decreases members.len(),
{
    if i < members.len() - 1 {
        lemma_named_in_view(members.drop_last(), i);
    }
}

proof fn lemma_view_is_named(members: Seq<(String, Json)>, name: Seq<char>)
    requires
        members_view(members).contains_key(name),
    ensures
        named_before(members, name, members.len() as int),
    decreases members.len(),
{
    if members.len() > 0 {
        let rest = members.drop_last();
        if members_view(rest).contains_key(name) {
            lemma_view_is_named(rest, name);
            let j = choose|j: int| 0 <= j < rest.len() && (#[trigger] rest[j]).0@ == name;
            assert(members[j].0@ == name);
        } else {
            assert(members[members.len() - 1].0@ == name);
        }
    }
}

/// The default before another is set.
pub open spec fn built_in_default() -> RouteView {
    RouteView { provider: "openai"@, model: "gpt-4.1-mini"@ }
}

/// No two routes are for one capability.
pub open spec fn distinct_routes(routes: Seq<(String, ModelRoute)>) -> bool {
    forall|i: int, j: int|
        0 <= i < j < routes.len() ==> (#[trigger] routes[i]).0@ != (#[trigger] routes[j]).0@
}

impl ProviderRouter {
    /// Whether no two routes are for one capability.
    pub open spec fn wf(self) -> bool {
        distinct_routes(self.routes@)
    }

    /// The routes of a configuration that was read, or the error where it is
    /// none.
    pub fn from_config(config: &Option<Json>) -> (r: Result<ProviderRouter, String>)
        ensures
            match r {
                Ok(router) => router.wf() && configured_routes(json_view(*config)) == Some(
                    router@.routes,
                ) && router@.default == built_in_default(),
                Err(e) => configured_routes(json_view(*config)) is None && e@
                    == "failed to parse models TOML"@,
            },
    {
        let entries = match config {
            Some(Json::Object(entries)) => entries,
            _ => {
                return Err("failed to parse models TOML".to_string());
            },
        };
        let ghost all = members_view(entries@);
        let mut routes: Vec<(String, ModelRoute)> = Vec::new();
        let mut i: usize = 0;
        while i < entries.len()
            invariant
                i <= entries@.len(),
                all == members_view(entries@),
                json_view(*config) == Some(JsonView::Object(all)),
                distinct_routes(routes@),
                forall|c: Seq<char>| #[trigger]
                    routes_view(routes@).contains_key(c) <==> named_before(entries@, c, i as int),
                forall|c: Seq<char>| #[trigger]
                    routes_view(routes@).contains_key(c) ==> all.contains_key(c) && route_of(
                        all[c],
                    ) == Some(routes_view(routes@)[c]),
            decreases entries.len() - i,
        {
            let name = entries[i].0.as_str();
            proof {
                lemma_named_in_view(entries@, i as int);
                assert forall|c: Seq<char>|
                    named_before(entries@, c, i as int + 1) <==> (#[trigger] named_before(
                        entries@,
                        c,
                        i as int,
                    ) || c == name@) by {
                    if c == name@ {
                        assert(entries@[i as int].0@ == c);
                    }
                    if named_before(entries@, c, i as int) {
                        let j = choose|j: int| 0 <= j < i && (#[trigger] entries@[j]).0@ == c;
                        assert(entries@[j].0@ == c);
                    }
                }
            }
            if ProviderRouter::position(&routes, name).is_none() {
                let ghost before = routes@;
                let value = match member(entries, name) {
                    Some(v) => v,
                    None => {
                        return Err("failed to parse models TOML".to_string());
                    },
                };
                assert(all[name@] == value@);
                match read_route(value) {
                    Some(route) => {
                        routes.push((name.to_string(), route));
                        assert(routes@.drop_last() =~= before);
                    },
                    None => {
                        assert(!all_routes(all));
                        return Err("failed to parse models TOML".to_string());
                    },
                }
            }
            i += 1;
        }
        proof {
            assert forall|c: Seq<char>| #[trigger] all.contains_key(c) implies routes_view(
                routes@,
            ).contains_key(c) by {
                lemma_view_is_named(entries@, c);
                assert(named_before(entries@, c, i as int));
            }
            assert(all_routes(all));
            assert(all.map_values(|entry: JsonView| route_of(entry)->0) =~= routes_view(routes@));
        }
        Ok(
            ProviderRouter {
                routes,
                default_provider: "openai".to_string(),
                default_model: "gpt-4.1-mini".to_string(),
            },
        )
    }

    /// Parse routes from a TOML string. Each top-level key is a capability.
    pub fn from_toml(toml_str: &str) -> (r: Result<ProviderRouter, String>)
        ensures
            match r {
                Ok(router) => router.wf() && configured_routes(read_toml(toml_str@)) == Some(
                    router@.routes,
                ) && router@.default == built_in_default(),
                Err(e) => configured_routes(read_toml(toml_str@)) is None && e@
                    == "failed to parse models TOML"@,
            },
    {
        let config = parse_toml(toml_str);
        ProviderRouter::from_config(&config)
    }

    /// Where the capability stands in the list.
    fn position(routes: &Vec<(String, ModelRoute)>, capability: &str) -> (r: Option<usize>)
        ensures
            match r {
                Some(i) => i < routes@.len() && routes_view(routes@).contains_key(capability@)
                    && routes_view(routes@)[capability@] == routes@[i as int].1@,
                None => !routes_view(routes@).contains_key(capability@) && forall|j: int|
                    0 <= j < routes@.len() ==> (#[trigger] routes@[j]).0@ != capability@,
            },
    {
        let mut i: usize = routes.len();
        while i > 0
            invariant
                i <= routes@.len(),
                forall|j: int| i <= j < routes@.len() ==> (#[trigger] routes@[j]).0@ != capability@,
            decreases i,
        {
            i -= 1;
            if same_text(routes[i].0.as_str(), capability) {
                proof {
                    lemma_route_decides(routes@, i as int, capability@);
                }
                return Some(i);
            }
        }
        proof {
            lemma_no_route(routes@, capability@);
        }
        None
    }

    /// Set the fallback provider and model for unknown capabilities.
    pub fn with_default(self, provider: &str, model: &str) -> (r: ProviderRouter)
        ensures
            r@ == (RouterView {
                default: RouteView { provider: provider@, model: model@ },
                ..self@
            }),
            self.wf() ==> r.wf(),
    {
        ProviderRouter {
            routes: self.routes,
            default_provider: provider.to_string(),
            default_model: model.to_string(),
        }
    }

    /// Resolve the model route for a capability name. There always is one.
    pub fn route_for(&self, capability: &str) -> (r: Result<ModelRoute, String>)
        ensures
            r matches Ok(route) && route@ == self@.route(capability@),
    {
        match ProviderRouter::position(&self.routes, capability) {
            Some(i) => Ok(self.routes[i].1.copy()),
            None => Ok(
                ModelRoute {
                    provider: self.default_provider.clone(),
                    model: self.default_model.clone(),
                },
            ),
        }
    }

    /// Resolve the model route, failing if no explicit route exists.
    pub fn route_for_strict(&self, capability: &str) -> (r: Result<ModelRoute, String>)
        ensures
            match r {
                Ok(route) => self@.routes.contains_key(capability@) && route@
                    == self@.routes[capability@],
                Err(e) => !self@.routes.contains_key(capability@) && e@
                    == "no route configured for capability '"@ + capability@ + "'"@,
            },
    {
        match ProviderRouter::position(&self.routes, capability) {
            Some(i) => Ok(self.routes[i].1.copy()),
            None => Err(
                plus(
                    plus("no route configured for capability '".to_string(), capability),
                    "'",
                ),
            ),
        }
    }

    /// List all configured capabilities, each once.
    pub fn capabilities(&self) -> (r: Vec<&str>)
        requires
            self.wf(),
        ensures
            r@.len() == self.routes@.len(),
            forall|i: int| 0 <= i < r@.len() ==> (#[trigger] r@[i])@ == self.routes@[i].0@,
            forall|c: Seq<char>| #[trigger]
                self@.routes.contains_key(c) <==> exists|i: int|
                    0 <= i < r@.len() && (#[trigger] r@[i])@ == c,
            forall|i: int, j: int|
                0 <= i < j < r@.len() ==> (#[trigger] r@[i])@ != (#[trigger] r@[j])@,
    {
        let mut r: Vec<&str> = Vec::new();
        let mut i: usize = 0;
        while i < self.routes.len()
            invariant
                i <= self.routes@.len(),
                r@.len() == i,
                forall|j: int| 0 <= j < i ==> (#[trigger] r@[j])@ == self.routes@[j].0@,
            decreases self.routes.len() - i,
        {
            r.push(self.routes[i].0.as_str());
            i += 1;
        }
        proof {
            assert forall|c: Seq<char>| #[trigger]
                self@.routes.contains_key(c) <==> exists|i: int|
                    0 <= i < r@.len() && (#[trigger] r@[i])@ == c by {
                if self@.routes.contains_key(c) {
                    lemma_routed_is_listed(self.routes@, c);
                    let k = choose|k: int|
                        0 <= k < self.routes@.len() && (#[trigger] self.routes@[k]).0@ == c;
                    assert(r@[k]@ == c);
                }
                if exists|i: int| 0 <= i < r@.len() && (#[trigger] r@[i])@ == c {
                    let k = choose|k: int| 0 <= k < r@.len() && (#[trigger] r@[k])@ == c;
                    lemma_route_decides(self.routes@, k, c);
                }
            }
        }
        r
    }
}

/// A capability with a route of its own is given that route, in either way of
/// asking; one without is given the default, or refused where none is allowed.
/// Changing the default changes nothing for the former.
pub proof fn law_explicit_routes_come_first(
    router: RouterView,
    default: RouteView,
    capability: Seq<char>,
)
    ensures
        router.routes.contains_key(capability) ==> router.route(capability)
            == router.routes[capability] && (RouterView { default, ..router }).route(capability)
            == router.route(capability),
        !router.routes.contains_key(capability) ==> router.route(capability) == router.default
            && (RouterView { default, ..router }).route(capability) == default,
{
}

/// What counts of a [`ModelRoute`] is what it holds, field by field.
pub proof fn law_routes_are_what_they_hold(route: ModelRoute)
    ensures
        route@.provider == route.provider@,
        route@.model == route.model@,
{
}

/// A table with two texts gives the route of that provider to that model, and so
/// does an array that begins with them; nothing else gives a route.
pub proof fn law_entries_give_routes(entry: JsonView)
    ensures
        entry is Object ==> {
            let m = entry->Object_0;
            let complete = m.contains_key("provider"@) && m["provider"@] is Text && m.contains_key(
                "model"@,
            ) && m["model"@] is Text;
            &&& complete ==> route_of(entry) is Some && route_of(entry)->0.provider
                == m["provider"@]->Text_0 && route_of(entry)->0.model == m["model"@]->Text_0
            &&& !complete ==> route_of(entry) is None
        },
        entry is Array ==> {
            let items = entry->Array_0;
            let complete = items.len() >= 2 && items[0] is Text && items[1] is Text;
            &&& complete ==> route_of(entry) is Some && route_of(entry)->0.provider
                == items[0]->Text_0 && route_of(entry)->0.model == items[1]->Text_0
            &&& !complete ==> route_of(entry) is None
        },
        !(entry is Object) && !(entry is Array) ==> route_of(entry) is None,
{
}

/// A configuration gives each of its capabilities the route of its own entry and
/// no other capability any; one entry without a route spoils the whole.
pub proof fn law_every_capability_has_its_own_entry(
    config: Option<JsonView>,
    entries: Map<Seq<char>, JsonView>,
    capability: Seq<char>,
)
    ensures
        config is None ==> configured_routes(config) is None,
        config is Some && !(config->0 is Object) ==> configured_routes(config) is None,
        config == Some(JsonView::Object(entries)) ==> {
            let routes = configured_routes(config);
            &&& entries.contains_key(capability) && route_of(entries[capability]) is None
                ==> routes is None
            &&& (forall|c: Seq<char>| #[trigger]
                entries.contains_key(c) ==> route_of(entries[c]) is Some) ==> routes is Some
            &&& routes is Some ==> (routes->0.contains_key(capability) <==> entries.contains_key(
                capability,
            ))
            &&& routes is Some && entries.contains_key(capability) ==> Some(routes->0[capability])
                == route_of(entries[capability])
        },
{
}

/// Of two routes for one capability the later counts, and a capability that is
/// not listed has none.
pub proof fn law_the_last_route_counts(
    routes: Seq<(String, ModelRoute)>,
    i: int,
    capability: Seq<char>,
)
    ensures
        0 <= i < routes.len() && routes[i].0@ == capability && (forall|j: int|
            i < j < routes.len() ==> (#[trigger] routes[j]).0@ != capability) ==> routes_view(
            routes,
        ).contains_key(capability) && routes_view(routes)[capability] == routes[i].1@,
        (forall|j: int| 0 <= j < routes.len() ==> (#[trigger] routes[j]).0@ != capability)
            ==> !routes_view(routes).contains_key(capability),
{
    if 0 <= i < routes.len() && routes[i].0@ == capability && (forall|j: int|
        i < j < routes.len() ==> (#[trigger] routes[j]).0@ != capability) {
        lemma_route_decides(routes, i, capability);
    }
    if forall|j: int| 0 <= j < routes.len() ==> (#[trigger] routes[j]).0@ != capability {
        lemma_no_route(routes, capability);
    }
}

/// What counts of a [`ProviderRouter`] is its routes and its default, and the
/// default before another is set is a small model of OpenAI.
pub proof fn law_routers_are_what_they_hold(router: ProviderRouter)
    ensures
        router@.routes == routes_view(router.routes@),
        router@.default.provider == router.default_provider@,
        router@.default.model == router.default_model@,
        built_in_default().provider == "openai"@,
        built_in_default().model == "gpt-4.1-mini"@,
{
}

/// A document is read as a table of tables where it is one, and otherwise as
/// whatever else it is.
pub proof fn law_tables_are_read_first(text: Seq<char>)
    ensures
        parsed_tables(text) is Some ==> read_toml(text) == parsed_tables(text),
        parsed_tables(text) is None ==> read_toml(text) == parsed_toml(text),
{
}

} // verus!
