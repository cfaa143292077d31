use vstd::prelude::*;
use vstd::string::StringExecFns;

verus! {

/// The stores of the persistence layer that request types select.
#[derive(Clone, Copy, Debug, PartialEq, Eq, Structural)]
pub enum StoreName {
    Events,
    Metrics,
    ConnectionModelSchemas,
    PublicConnectionModelSchemas,
}

/// The fields a store query can filter by.
#[derive(Debug, PartialEq, Eq)]
pub enum FilterKey {
    OwnershipBuildableId,
    Environment,
    Mapping,
    ConnectionDefinitionId,
    ConnectionPlatform,
    Other(String),
}

/// What a filter entry requires of its field.
#[derive(Debug, PartialEq, Eq)]
pub enum FilterValue {
    /// The field equals the given text.
    Text(String),
    /// The field exists and is not null.
    NonNull,
}

/// An ordered conjunction of filter conditions for a store query.
#[derive(Debug, PartialEq, Eq)]
pub struct QueryFilter {
    pub entries: Vec<(FilterKey, FilterValue)>,
}

/// Whether a filter entry survives the public connection-model-schema
/// shaping: ownership and environment scoping are dropped (the route is
/// public), and any mapping condition is dropped because the shaping adds
/// its own.
pub open spec fn keeps_public_schema(k: FilterKey) -> bool {
    !(k is OwnershipBuildableId) && !(k is Environment) && !(k is Mapping)
}

/// The entries that survive the public shaping, in their original order.
pub open spec fn stripped_for_public_schema(
    entries: Seq<(FilterKey, FilterValue)>,
) -> Seq<(FilterKey, FilterValue)>
    decreases entries.len(),
{
    if entries.len() == 0 {
        Seq::empty()
    } else {
        (if keeps_public_schema(entries[0].0) {
            seq![entries[0]]
        } else {
            Seq::empty()
        }) + stripped_for_public_schema(entries.drop_first())
    }
}

/// Shape a caller's query for the public connection-model-schema read:
/// drop any ownership and environment scoping, and require a non-null
/// mapping, keeping every other condition in order.
pub fn shape_public_schema_filter(f: &mut QueryFilter)
    ensures
        final(f).entries@ == stripped_for_public_schema(old(f).entries@).push(
            (FilterKey::Mapping, FilterValue::NonNull),
        ),
{
    let ghost orig = f.entries@;
    let mut src: Vec<(FilterKey, FilterValue)> = Vec::new();
    core::mem::swap(&mut src, &mut f.entries);
    let mut kept: Vec<(FilterKey, FilterValue)> = Vec::new();
    proof {
        assert(Seq::<(FilterKey, FilterValue)>::empty() + stripped_for_public_schema(orig)
            =~= stripped_for_public_schema(orig));
    }
    while src.len() > 0
        invariant
            stripped_for_public_schema(orig) == kept@ + stripped_for_public_schema(src@),
        decreases src@.len(),
    {
        let ghost pre_src = src@;
        let ghost pre_kept = kept@;
        let e = src.remove(0);
        proof {
            assert(src@ =~= pre_src.drop_first());
        }
        let keep = match &e.0 {
            FilterKey::OwnershipBuildableId => false,
            FilterKey::Environment => false,
            FilterKey::Mapping => false,
            _ => true,
        };
        if keep {
            kept.push(e);
            proof {
                assert(pre_kept + (seq![pre_src[0]] + stripped_for_public_schema(src@)) =~= kept@
                    + stripped_for_public_schema(src@));
            }
        } else {
            proof {
                assert(pre_kept + (Seq::<(FilterKey, FilterValue)>::empty()
                    + stripped_for_public_schema(src@)) =~= kept@ + stripped_for_public_schema(
                    src@,
                ));
            }
        }
    }
    proof {
        assert(src@ =~= Seq::<(FilterKey, FilterValue)>::empty());
        assert(kept@ + stripped_for_public_schema(src@) =~= kept@);
    }
    kept.push((FilterKey::Mapping, FilterValue::NonNull));
    f.entries = kept;
}

/// Why a public connection-model-schema read is rejected.
#[derive(Clone, Copy, Debug, PartialEq, Eq, Structural)]
pub enum SchemaQueryError {
    /// The query names no connection definition id.
    MissingConnectionDefinitionId,
}

/// A public connection-model-schema read requires the query to name a
/// connection definition id; without one it is rejected, with the store
/// untouched.
pub fn require_connection_definition_id(f: &QueryFilter) -> (r: Result<(), SchemaQueryError>)
    ensures
        r is Ok <==> exists|i: int|
            0 <= i < f.entries@.len() && f.entries@[i].0 is ConnectionDefinitionId,
        r is Err ==> r == Err::<(), SchemaQueryError>(
            SchemaQueryError::MissingConnectionDefinitionId,
        ),
{
    let n = f.entries.len();
    let mut i: usize = 0;
    while i < n
        invariant
            n == f.entries.len(),
            i <= n,
            forall|j: int| 0 <= j < i ==> !(f.entries@[j].0 is ConnectionDefinitionId),
        decreases n - i,
    {
        let entry = &f.entries[i];
        if let FilterKey::ConnectionDefinitionId = &entry.0 {
            return Ok(());
        }
        i = i + 1;
    }
    Err(SchemaQueryError::MissingConnectionDefinitionId)
}

/// The filter for the public list of a platform's model names: schemas of
/// the named platform whose mapping is present.
pub fn platform_models_filter(platform_name: String) -> (f: QueryFilter)
    ensures
        f.entries@ == seq![
            (FilterKey::ConnectionPlatform, FilterValue::Text(platform_name)),
            (FilterKey::Mapping, FilterValue::NonNull),
        ],
{
    let mut entries: Vec<(FilterKey, FilterValue)> = Vec::new();
    entries.push((FilterKey::ConnectionPlatform, FilterValue::Text(platform_name)));
    entries.push((FilterKey::Mapping, FilterValue::NonNull));
    proof {
        assert(entries@ =~= seq![
            (FilterKey::ConnectionPlatform, FilterValue::Text(platform_name)),
            (FilterKey::Mapping, FilterValue::NonNull),
        ]);
    }
    QueryFilter { entries }
}

/// The mapping a schema row carries: which common model it maps to.
#[derive(Debug, Clone, PartialEq, Eq)]
pub struct MappingInfo {
    pub common_model_name: String,
}

/// One row of the public connection-model-schema store, reduced to what the
/// public listing reads.
#[derive(Debug, PartialEq, Eq)]
pub struct PublicSchemaRow {
    pub connection_platform: String,
    pub mapping: MappingInfo,
}

/// The common model names of the given rows, one per row, in row order.
pub fn extract_model_names(rows: &Vec<PublicSchemaRow>) -> (names: Vec<String>)
    ensures
        names@ == rows@.map_values(|r: PublicSchemaRow| r.mapping.common_model_name),
{
    let n = rows.len();
    let mut names: Vec<String> = Vec::new();
    let mut i: usize = 0;
    while i < n
        invariant
            n == rows.len(),
            i <= n,
            names@.len() == i,
            forall|j: int| 0 <= j < i ==> names@[j] == rows@[j].mapping.common_model_name,
        decreases n - i,
    {
        let row = &rows[i];
        names.push(row.mapping.common_model_name.clone());
        i = i + 1;
    }
    proof {
        assert(names@ =~= rows@.map_values(|r: PublicSchemaRow| r.mapping.common_model_name));
    }
    names
}

/// Marker request type selecting the event store.
#[derive(Clone, Copy, Debug, PartialEq, Eq, Structural)]
pub struct CreateEventRequest;

impl CreateEventRequest {
    pub fn get_store() -> (s: StoreName)
        ensures
            s == StoreName::Events,
    {
        StoreName::Events
    }
}

/// The public query for connection model schemas of one connection
/// definition.
#[derive(Debug, PartialEq, Eq)]
pub struct PublicGetConnectionModelSchema {
    pub connection_definition_id: String,
}

impl PublicGetConnectionModelSchema {
    pub fn get_store() -> (s: StoreName)
        ensures
            s == StoreName::PublicConnectionModelSchemas,
    {
        StoreName::PublicConnectionModelSchemas
    }
}

/// What `str::to_lowercase` returns for the given characters: lowercase
/// folding, a function of the input characters alone.
pub uninterp spec fn folded(s: Seq<char>) -> Seq<char>;

/// Relies on str::to_lowercase: the result is the lowercase folding of the
/// input and depends on the input characters alone.
#[verifier::external_body]
fn lowercase(s: &str) -> (r: String)
    ensures
        r@ == folded(s@),
{
    s.to_lowercase()
}

/// The characters a schema's lookup key is folded from: the platform,
/// version and model name under the fixed `api` prefix.
pub open spec fn schema_key_source(
    platform: Seq<char>,
    version: Seq<char>,
    model: Seq<char>,
) -> Seq<char> {
    "api::"@ + platform + "::"@ + version + "::"@ + model
}

fn build_schema_key(platform: &String, version: &String, model: &String) -> (k: String)
    ensures
        k@ == folded(schema_key_source(platform@, version@, model@)),
{
    let mut s = "api::".to_owned();
    s.append(platform.as_str());
    s.append("::");
    s.append(version.as_str());
    s.append("::");
    s.append(model.as_str());
    proof {
        assert(s@ =~= schema_key_source(platform@, version@, model@));
    }
    lowercase(s.as_str())
}

/// A stored connection model schema.
#[derive(Debug, PartialEq, Eq)]
pub struct ModelSchema {
    pub id: String,
    pub platform_id: String,
    pub platform_page_id: String,
    pub connection_platform: String,
    pub connection_definition_id: String,
    pub platform_version: String,
    pub key: String,
    pub model_name: String,
    pub schema_document: String,
    pub sample_document: String,
    pub paths: Option<String>,
    pub mapping: Option<MappingInfo>,
}

/// A request to create or update a connection model schema.
#[derive(Debug, PartialEq, Eq)]
pub struct CreateRequest {
    pub platform_id: String,
    pub platform_page_id: String,
    pub connection_platform: String,
    pub connection_definition_id: String,
    pub platform_version: String,
    pub model_name: String,
    pub schema_document: String,
    pub sample_document: String,
    pub paths: Option<String>,
    pub mapping: Option<MappingInfo>,
}

impl CreateRequest {
    /// Build the stored schema for this request under the given fresh id:
    /// every field is taken over, and the lookup key is the lowercase
    /// folding of `api::<platform>::<version>::<model name>`.
    pub fn into_public(self, id: String) -> (out: ModelSchema)
        ensures
            out.id == id,
            out.platform_id == self.platform_id,
            out.platform_page_id == self.platform_page_id,
            out.connection_platform == self.connection_platform,
            out.connection_definition_id == self.connection_definition_id,
            out.platform_version == self.platform_version,
            out.model_name == self.model_name,
            out.schema_document == self.schema_document,
            out.sample_document == self.sample_document,
            out.paths == self.paths,
            out.mapping == self.mapping,
            out.key@ == folded(
                schema_key_source(
                    self.connection_platform@,
                    self.platform_version@,
                    self.model_name@,
                ),
            ),
    {
        let key = build_schema_key(
            &self.connection_platform,
            &self.platform_version,
            &self.model_name,
        );
        ModelSchema {
            id,
            platform_id: self.platform_id,
            platform_page_id: self.platform_page_id,
            connection_platform: self.connection_platform,
            connection_definition_id: self.connection_definition_id,
            platform_version: self.platform_version,
            key,
            model_name: self.model_name,
            schema_document: self.schema_document,
            sample_document: self.sample_document,
            paths: self.paths,
            mapping: self.mapping,
        }
    }

    /// Overwrite an existing stored schema's request-settable fields,
    /// leaving its id and lookup key as they are.
    pub fn update(self, record: &mut ModelSchema)
        ensures
            final(record).platform_id == self.platform_id,
            final(record).platform_page_id == self.platform_page_id,
            final(record).connection_platform == self.connection_platform,
            final(record).connection_definition_id == self.connection_definition_id,
            final(record).platform_version == self.platform_version,
            final(record).model_name == self.model_name,
            final(record).schema_document == self.schema_document,
            final(record).sample_document == self.sample_document,
            final(record).paths == self.paths,
            final(record).mapping == self.mapping,
            final(record).id == old(record).id,
            final(record).key == old(record).key,
    {
        record.platform_id = self.platform_id;
        record.platform_page_id = self.platform_page_id;
        record.connection_platform = self.connection_platform;
        record.connection_definition_id = self.connection_definition_id;
        record.platform_version = self.platform_version;
        record.model_name = self.model_name;
        record.schema_document = self.schema_document;
        record.sample_document = self.sample_document;
        record.paths = self.paths;
        record.mapping = self.mapping;
    }

    pub fn get_store() -> (s: StoreName)
        ensures
            s == StoreName::ConnectionModelSchemas,
    {
        StoreName::ConnectionModelSchemas
    }
}

} // verus!
