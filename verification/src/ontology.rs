//! Query paths into entity types.

use vstd::prelude::*;
use vstd::string::*;
use crate::query::{
    parameters_view, parse_query_token, query_token, texts_view, JsonPath, OntologyQueryPath,
    ParameterType, ParametersView, PathToken, PathTokenView, QueryPath, QueryPathError,
    QueryPathErrorView, QueryToken,
};
use crate::text::str_eq;

verus! {

/// A path from an entity type to one of its fields.
#[derive(Debug, PartialEq, Eq)]
pub enum EntityTypeQueryPath {
    OntologyId,
    BaseUrl,
    VersionedUrl,
    Version,
    TransactionTime,
    RecordCreatedById,
    RecordArchivedById,
    Schema(Option<JsonPath>),
    AdditionalMetadata(Option<JsonPath>),
}

/// A path into an entity type, as plain values.
pub enum EntityTypeQueryPathView {
    OntologyId,
    BaseUrl,
    VersionedUrl,
    Version,
    TransactionTime,
    RecordCreatedById,
    RecordArchivedById,
    Schema(Option<Seq<PathTokenView>>),
    AdditionalMetadata(Option<Seq<PathTokenView>>),
}

/// What an optional JSON path holds, as plain values.
pub open spec fn json_path_view(path: Option<JsonPath>) -> Option<Seq<PathTokenView>> {
    match path {
        Some(p) => Some(p@),
        None => None,
    }
}

impl View for EntityTypeQueryPath {
    type V = EntityTypeQueryPathView;

    open spec fn view(&self) -> EntityTypeQueryPathView {
        match self {
            EntityTypeQueryPath::OntologyId => EntityTypeQueryPathView::OntologyId,
            EntityTypeQueryPath::BaseUrl => EntityTypeQueryPathView::BaseUrl,
            EntityTypeQueryPath::VersionedUrl => EntityTypeQueryPathView::VersionedUrl,
            EntityTypeQueryPath::Version => EntityTypeQueryPathView::Version,
            EntityTypeQueryPath::TransactionTime => EntityTypeQueryPathView::TransactionTime,
            EntityTypeQueryPath::RecordCreatedById => EntityTypeQueryPathView::RecordCreatedById,
            EntityTypeQueryPath::RecordArchivedById => EntityTypeQueryPathView::RecordArchivedById,
            EntityTypeQueryPath::Schema(path) => EntityTypeQueryPathView::Schema(
                json_path_view(*path),
            ),
            EntityTypeQueryPath::AdditionalMetadata(path) => {
                EntityTypeQueryPathView::AdditionalMetadata(json_path_view(*path))
            },
        }
    }
}

impl EntityTypeQueryPathView {
    /// The type of value that the path leads to.
    pub open spec fn expected_type(self) -> ParameterType {
        match self {
            EntityTypeQueryPathView::OntologyId => ParameterType::Uuid,
            EntityTypeQueryPathView::BaseUrl => ParameterType::BaseUrl,
            EntityTypeQueryPathView::VersionedUrl => ParameterType::VersionedUrl,
            EntityTypeQueryPathView::Version => ParameterType::OntologyTypeVersion,
            EntityTypeQueryPathView::TransactionTime => ParameterType::TimeInterval,
            EntityTypeQueryPathView::RecordCreatedById => ParameterType::Uuid,
            EntityTypeQueryPathView::RecordArchivedById => ParameterType::Uuid,
            EntityTypeQueryPathView::Schema(_) => ParameterType::Any,
            EntityTypeQueryPathView::AdditionalMetadata(_) => ParameterType::Object,
        }
    }
}

impl EntityTypeQueryPathView {
    /// The path as it is written.
    pub open spec fn text(self) -> Seq<char> {
        match self {
            EntityTypeQueryPathView::OntologyId => "ontologyId"@,
            EntityTypeQueryPathView::BaseUrl => "baseUrl"@,
            EntityTypeQueryPathView::VersionedUrl => "versionedUrl"@,
            EntityTypeQueryPathView::Version => "version"@,
            EntityTypeQueryPathView::TransactionTime => "transactionTime"@,
            EntityTypeQueryPathView::RecordCreatedById => "recordCreatedById"@,
            EntityTypeQueryPathView::RecordArchivedById => "recordArchivedById"@,
            EntityTypeQueryPathView::Schema(Some(path)) => "schema."@ + crate::query::json_path_text(
                path,
            ),
            EntityTypeQueryPathView::Schema(None) => "schema"@,
            EntityTypeQueryPathView::AdditionalMetadata(Some(path)) => "additionalMetadata."@
                + crate::query::json_path_text(path),
            EntityTypeQueryPathView::AdditionalMetadata(None) => "additionalMetadata"@,
        }
    }
}

impl EntityTypeQueryPath {
    /// The path as it is written.
    pub fn render(&self) -> (text: String)
        ensures
            text@ == self@.text(),
    {
        match self {
            EntityTypeQueryPath::OntologyId => String::from_str("ontologyId"),
            EntityTypeQueryPath::BaseUrl => String::from_str("baseUrl"),
            EntityTypeQueryPath::VersionedUrl => String::from_str("versionedUrl"),
            EntityTypeQueryPath::Version => String::from_str("version"),
            EntityTypeQueryPath::TransactionTime => String::from_str("transactionTime"),
            EntityTypeQueryPath::RecordCreatedById => String::from_str("recordCreatedById"),
            EntityTypeQueryPath::RecordArchivedById => String::from_str("recordArchivedById"),
            EntityTypeQueryPath::Schema(Some(path)) => {
                let mut text = String::from_str("schema.");
                text.append(path.render().as_str());
                text
            },
            EntityTypeQueryPath::Schema(None) => String::from_str("schema"),
            EntityTypeQueryPath::AdditionalMetadata(Some(path)) => {
                let mut text = String::from_str("additionalMetadata.");
                text.append(path.render().as_str());
                text
            },
            EntityTypeQueryPath::AdditionalMetadata(None) => String::from_str(
                "additionalMetadata",
            ),
        }
    }
}

impl QueryPath for EntityTypeQueryPath {
    open spec fn spec_expected_type(&self) -> ParameterType {
        self@.expected_type()
    }

    fn expected_type(&self) -> (parameter_type: ParameterType) {
        match self {
            EntityTypeQueryPath::OntologyId => ParameterType::Uuid,
            EntityTypeQueryPath::BaseUrl => ParameterType::BaseUrl,
            EntityTypeQueryPath::VersionedUrl => ParameterType::VersionedUrl,
            EntityTypeQueryPath::Version => ParameterType::OntologyTypeVersion,
            EntityTypeQueryPath::TransactionTime => ParameterType::TimeInterval,
            EntityTypeQueryPath::RecordCreatedById => ParameterType::Uuid,
            EntityTypeQueryPath::RecordArchivedById => ParameterType::Uuid,
            EntityTypeQueryPath::Schema(_) => ParameterType::Any,
            EntityTypeQueryPath::AdditionalMetadata(_) => ParameterType::Object,
        }
    }
}

impl OntologyQueryPath for EntityTypeQueryPath {
    fn ontology_id() -> (path: Self)
        ensures
            path@ == EntityTypeQueryPathView::OntologyId,
    {
        EntityTypeQueryPath::OntologyId
    }

    fn base_url() -> (path: Self)
        ensures
            path@ == EntityTypeQueryPathView::BaseUrl,
    {
        EntityTypeQueryPath::BaseUrl
    }

    fn versioned_url() -> (path: Self)
        ensures
            path@ == EntityTypeQueryPathView::VersionedUrl,
    {
        EntityTypeQueryPath::VersionedUrl
    }

    fn version() -> (path: Self)
        ensures
            path@ == EntityTypeQueryPathView::Version,
    {
        EntityTypeQueryPath::Version
    }

    fn transaction_time() -> (path: Self)
        ensures
            path@ == EntityTypeQueryPathView::TransactionTime,
    {
        EntityTypeQueryPath::TransactionTime
    }

    fn record_created_by_id() -> (path: Self)
        ensures
            path@ == EntityTypeQueryPathView::RecordCreatedById,
    {
        EntityTypeQueryPath::RecordCreatedById
    }

    fn record_archived_by_id() -> (path: Self)
        ensures
            path@ == EntityTypeQueryPathView::RecordArchivedById,
    {
        EntityTypeQueryPath::RecordArchivedById
    }

    fn schema() -> (path: Self)
        ensures
            path@ == EntityTypeQueryPathView::Schema(None),
    {
        EntityTypeQueryPath::Schema(None)
    }

    fn additional_metadata() -> (path: Self)
        ensures
            path@ == EntityTypeQueryPathView::AdditionalMetadata(None),
    {
        EntityTypeQueryPath::AdditionalMetadata(None)
    }
}

/// A single token of an entity type query path.
#[derive(Debug, Clone, Copy, PartialEq, Eq, Structural)]
pub enum EntityTypeQueryToken {
    BaseUrl,
    Version,
    VersionedUrl,
    RecordCreatedById,
    RecordArchivedById,
}

impl EntityTypeQueryToken {
    /// The path that the token stands for.
    pub open spec fn path(self) -> EntityTypeQueryPathView {
        match self {
            EntityTypeQueryToken::BaseUrl => EntityTypeQueryPathView::BaseUrl,
            EntityTypeQueryToken::Version => EntityTypeQueryPathView::Version,
            EntityTypeQueryToken::VersionedUrl => EntityTypeQueryPathView::VersionedUrl,
            EntityTypeQueryToken::RecordCreatedById => EntityTypeQueryPathView::RecordCreatedById,
            EntityTypeQueryToken::RecordArchivedById => {
                EntityTypeQueryPathView::RecordArchivedById
            },
        }
    }
}

impl QueryToken for EntityTypeQueryToken {
    open spec fn token_of(name: Seq<char>) -> Option<Self> {
        if name == "baseUrl"@ {
            Some(EntityTypeQueryToken::BaseUrl)
        } else if name == "version"@ {
            Some(EntityTypeQueryToken::Version)
        } else if name == "versionedUrl"@ {
            Some(EntityTypeQueryToken::VersionedUrl)
        } else if name == "recordCreatedById"@ {
            Some(EntityTypeQueryToken::RecordCreatedById)
        } else if name == "recordArchivedById"@ {
            Some(EntityTypeQueryToken::RecordArchivedById)
        } else {
            None
        }
    }

    open spec fn all_names() -> Seq<char> {
        EntityTypeQueryPathVisitor::EXPECTING@
    }

    fn from_name(name: &str) -> (token: Option<Self>) {
        if str_eq(name, "baseUrl") {
            Some(EntityTypeQueryToken::BaseUrl)
        } else if str_eq(name, "version") {
            Some(EntityTypeQueryToken::Version)
        } else if str_eq(name, "versionedUrl") {
            Some(EntityTypeQueryToken::VersionedUrl)
        } else if str_eq(name, "recordCreatedById") {
            Some(EntityTypeQueryToken::RecordCreatedById)
        } else if str_eq(name, "recordArchivedById") {
            Some(EntityTypeQueryToken::RecordArchivedById)
        } else {
            None
        }
    }

    fn expecting() -> (names: &'static str) {
        EntityTypeQueryPathVisitor::EXPECTING
    }
}

/// The keys of parameters, in their order.
pub open spec fn parameter_keys(parameters: ParametersView) -> Seq<Seq<char>> {
    Seq::new(parameters.len(), |i: int| parameters[i].0)
}

/// The keys of `parameters`, in their order.
pub fn keys_of(parameters: &Vec<(String, String)>) -> (keys: Vec<String>)
    ensures
        texts_view(keys@) == parameter_keys(parameters_view(parameters@)),
{
    let mut keys: Vec<String> = Vec::new();
    let mut i: usize = 0;
    while i < parameters.len()
        invariant
            i <= parameters.len(),
            keys@.len() == i,
            forall|j: int| 0 <= j < i ==> (#[trigger] keys@[j])@ == parameters@[j].0@,
        decreases parameters.len() - i,
    {
        keys.push(parameters[i].0.clone());
        i += 1;
    }
    assert(texts_view(keys@) =~= parameter_keys(parameters_view(parameters@)));
    keys
}

/// The path into an entity type that the token at `position` of `segments` stands for, and
/// the position behind it. The token takes no parameter.
pub open spec fn entity_type_path_at(segments: Seq<PathTokenView>, position: int) -> Result<
    (EntityTypeQueryPathView, int),
    QueryPathErrorView,
> {
    if position < 0 || position >= segments.len() {
        Err(
            QueryPathErrorView::MissingToken {
                position: position as usize,
                expected: EntityTypeQueryPathVisitor::EXPECTING@,
            },
        )
    } else {
        match segments[position] {
            PathTokenView::Index(index) => Err(QueryPathErrorView::UnexpectedIndex { index }),
            PathTokenView::Field(text) => match query_token::<EntityTypeQueryToken>(text) {
                Err(e) => Err(e),
                Ok((token, parameters)) => if parameters.len() > 0 {
                    Err(QueryPathErrorView::UnknownParameters(parameter_keys(parameters)))
                } else {
                    Ok((token.path(), position + 1))
                },
            },
        }
    }
}

/// Reads an entity type query path from a sequence of tokens.
pub struct EntityTypeQueryPathVisitor {
    /// The position in the sequence at which reading goes on.
    position: usize,
}

impl EntityTypeQueryPathVisitor {
    /// The tokens that an entity type query path can be made of.
    pub const EXPECTING: &'static str =
        "one of `baseUrl`, `version`, `versionedUrl`, `recordCreatedById`, `recordArchivedById`";

    /// The position in the sequence at which the visitor reads next.
    pub closed spec fn spec_position(&self) -> usize {
        self.position
    }

    /// A visitor that starts to read at `position`.
    #[must_use]
    pub fn new(position: usize) -> (visitor: EntityTypeQueryPathVisitor)
        ensures
            visitor.spec_position() == position,
    {
        EntityTypeQueryPathVisitor { position }
    }

    /// Reads the path that starts at the visitor's position of `seq`, and says where it
    /// ends.
    pub fn visit_seq(self, seq: &Vec<PathToken>) -> (res: Result<
        (EntityTypeQueryPath, usize),
        QueryPathError,
    >)
        ensures
            match entity_type_path_at(crate::query::tokens_view(seq@), self.spec_position() as int) {
                Ok((path, after)) => res matches Ok((p, a)) && p@ == path && a == after,
                Err(e) => res matches Err(err) && err@ == e,
            },
    {
        if self.position >= seq.len() {
            return Err(
                QueryPathError::MissingToken { position: self.position, expected: Self::EXPECTING },
            );
        }
        assert(crate::query::tokens_view(seq@)[self.position as int] == seq@[self.position as int]@);
        let text = match &seq[self.position] {
            PathToken::Index(index) => {
                return Err(QueryPathError::UnexpectedIndex { index: *index });
            },
            PathToken::Field(text) => text,
        };
        let (token, parameters) = match parse_query_token::<EntityTypeQueryToken>(text.as_str()) {
            Ok(parsed) => parsed,
            Err(e) => {
                return Err(e);
            },
        };
        if parameters.len() > 0 {
            return Err(QueryPathError::UnknownParameters(keys_of(&parameters)));
        }
        let path = match token {
            EntityTypeQueryToken::BaseUrl => EntityTypeQueryPath::BaseUrl,
            EntityTypeQueryToken::Version => EntityTypeQueryPath::Version,
            EntityTypeQueryToken::VersionedUrl => EntityTypeQueryPath::VersionedUrl,
            EntityTypeQueryToken::RecordCreatedById => EntityTypeQueryPath::RecordCreatedById,
            EntityTypeQueryToken::RecordArchivedById => EntityTypeQueryPath::RecordArchivedById,
        };
        Ok((path, self.position + 1))
    }
}

} // verus!
