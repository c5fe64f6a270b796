//! Query paths into entities.

use vstd::prelude::*;
use vstd::string::*;
use crate::ontology::{
    entity_type_path_at, json_path_view, keys_of, parameter_keys, EntityTypeQueryPath,
    EntityTypeQueryPathView, EntityTypeQueryPathVisitor,
};
use crate::query::{
    parameter_value, parse_query_token, query_token, take_parameter,
    tokens_view, without_parameter, JsonPath, ParameterType, ParametersView, PathToken,
    PathTokenView, QueryPath, QueryPathError, QueryPathErrorView, QueryToken,
};
use crate::text::{decimal, decimal_text, number, parse_number, str_eq};

verus! {

/// The kinds of edge that entities and ontology types share.
#[derive(Debug, Clone, Copy, PartialEq, Eq, Structural)]
pub enum SharedEdgeKind {
    /// An entity is of an entity type.
    IsOfType,
}

/// The kinds of edge between entities.
#[derive(Debug, Clone, Copy, PartialEq, Eq, Structural)]
pub enum KnowledgeGraphEdgeKind {
    /// A link entity has another entity on its left.
    HasLeftEntity,
    /// A link entity has another entity on its right.
    HasRightEntity,
}

/// The direction in which an edge is followed.
#[derive(Debug, Clone, Copy, PartialEq, Eq, Structural)]
pub enum EdgeDirection {
    Incoming,
    Outgoing,
}

/// A path from an entity to one of its fields, or along an edge to another record.
#[derive(Debug, PartialEq, Eq)]
#[allow(inconsistent_fields)]
pub enum EntityQueryPath {
    /// The UUID of the entity.
    Uuid,
    /// The account that owns the entity.
    OwnedById,
    /// The edition of the entity's record.
    EditionId,
    /// The decision time of the entity. It cannot be asked for in a path.
    DecisionTime,
    /// The transaction time of the entity. It cannot be asked for in a path.
    TransactionTime,
    /// Whether the entity is archived.
    Archived,
    /// The account that created the record.
    RecordCreatedById,
    /// Along the edge from the entity to its type, and on into the type.
    EntityTypeEdge {
        edge_kind: SharedEdgeKind,
        path: EntityTypeQueryPath,
        inheritance_depth: Option<u32>,
    },
    /// Along an edge to another entity, and on into that entity.
    EntityEdge {
        edge_kind: KnowledgeGraphEdgeKind,
        path: Box<EntityQueryPath>,
        direction: EdgeDirection,
    },
    /// The order of a link among the links on its left entity.
    LeftToRightOrder,
    /// The order of a link among the links on its right entity.
    RightToLeftOrder,
    /// Into the properties of the entity.
    Properties(Option<JsonPath>),
}

/// A path into an entity, as plain values.
#[allow(inconsistent_fields)]
pub enum EntityQueryPathView {
    Uuid,
    OwnedById,
    EditionId,
    DecisionTime,
    TransactionTime,
    Archived,
    RecordCreatedById,
    EntityTypeEdge {
        edge_kind: SharedEdgeKind,
        path: EntityTypeQueryPathView,
        inheritance_depth: Option<u32>,
    },
    EntityEdge {
        edge_kind: KnowledgeGraphEdgeKind,
        path: Box<EntityQueryPathView>,
        direction: EdgeDirection,
    },
    LeftToRightOrder,
    RightToLeftOrder,
    Properties(Option<Seq<PathTokenView>>),
}

impl EntityQueryPath {
    /// What the path holds, as plain values.
    pub open spec fn as_view(&self) -> EntityQueryPathView
        decreases self,
    {
        match self {
            EntityQueryPath::Uuid => EntityQueryPathView::Uuid,
            EntityQueryPath::OwnedById => EntityQueryPathView::OwnedById,
            EntityQueryPath::EditionId => EntityQueryPathView::EditionId,
            EntityQueryPath::DecisionTime => EntityQueryPathView::DecisionTime,
            EntityQueryPath::TransactionTime => EntityQueryPathView::TransactionTime,
            EntityQueryPath::Archived => EntityQueryPathView::Archived,
            EntityQueryPath::RecordCreatedById => EntityQueryPathView::RecordCreatedById,
            EntityQueryPath::EntityTypeEdge { edge_kind, path, inheritance_depth } => {
                EntityQueryPathView::EntityTypeEdge {
                    edge_kind: *edge_kind,
                    path: path@,
                    inheritance_depth: *inheritance_depth,
                }
            },
            EntityQueryPath::EntityEdge { edge_kind, path, direction } => {
                EntityQueryPathView::EntityEdge {
                    edge_kind: *edge_kind,
                    path: Box::new(path.as_view()),
                    direction: *direction,
                }
            },
            EntityQueryPath::LeftToRightOrder => EntityQueryPathView::LeftToRightOrder,
            EntityQueryPath::RightToLeftOrder => EntityQueryPathView::RightToLeftOrder,
            EntityQueryPath::Properties(path) => EntityQueryPathView::Properties(
                json_path_view(*path),
            ),
        }
    }

    /// The type of value that the path leads to. A path along an edge leads to what the rest
    /// of the path leads to.
    pub fn parameter_type(&self) -> (parameter_type: ParameterType)
        ensures
            parameter_type == self.as_view().expected_type(),
        decreases self,
    {
        match self {
            EntityQueryPath::EditionId
            | EntityQueryPath::Uuid
            | EntityQueryPath::OwnedById
            | EntityQueryPath::RecordCreatedById => ParameterType::Uuid,
            EntityQueryPath::DecisionTime
            | EntityQueryPath::TransactionTime => ParameterType::TimeInterval,
            EntityQueryPath::Properties(_) => ParameterType::Any,
            EntityQueryPath::LeftToRightOrder
            | EntityQueryPath::RightToLeftOrder => ParameterType::Number,
            EntityQueryPath::Archived => ParameterType::Boolean,
            EntityQueryPath::EntityTypeEdge { path, .. } => path.expected_type(),
            EntityQueryPath::EntityEdge { path, .. } => path.parameter_type(),
        }
    }
}

impl EntityQueryPath {
    /// The path as it is written.
    pub fn render(&self) -> (text: String)
        ensures
            text@ == self.as_view().text(),
        decreases self,
    {
        match self {
            EntityQueryPath::Uuid => String::from_str("uuid"),
            EntityQueryPath::OwnedById => String::from_str("ownedById"),
            EntityQueryPath::RecordCreatedById => String::from_str("recordCreatedById"),
            EntityQueryPath::EditionId => String::from_str("editionId"),
            EntityQueryPath::DecisionTime => String::from_str("decisionTime"),
            EntityQueryPath::TransactionTime => String::from_str("transactionTime"),
            EntityQueryPath::Archived => String::from_str("archived"),
            EntityQueryPath::Properties(Some(path)) => {
                let mut text = String::from_str("properties.");
                text.append(path.render().as_str());
                text
            },
            EntityQueryPath::Properties(None) => String::from_str("properties"),
            EntityQueryPath::EntityTypeEdge { edge_kind, path, inheritance_depth } => {
                let mut text = match inheritance_depth {
                    Some(depth) => {
                        let mut text = String::from_str("type(");
                        text.append(decimal_text(*depth as u64).as_str());
                        text.append(").");
                        text
                    },
                    None => String::from_str("type."),
                };
                text.append(path.render().as_str());
                assert(text@ =~= self.as_view().text());
                text
            },
            EntityQueryPath::EntityEdge { edge_kind, path, direction } => {
                let mut text = match (edge_kind, direction) {
                    (
                        KnowledgeGraphEdgeKind::HasLeftEntity,
                        EdgeDirection::Outgoing,
                    ) => String::from_str("leftEntity."),
                    (
                        KnowledgeGraphEdgeKind::HasRightEntity,
                        EdgeDirection::Outgoing,
                    ) => String::from_str("rightEntity."),
                    (
                        KnowledgeGraphEdgeKind::HasLeftEntity,
                        EdgeDirection::Incoming,
                    ) => String::from_str("outgoingLinks."),
                    (
                        KnowledgeGraphEdgeKind::HasRightEntity,
                        EdgeDirection::Incoming,
                    ) => String::from_str("incomingLinks."),
                };
                text.append(path.render().as_str());
                text
            },
            EntityQueryPath::LeftToRightOrder => String::from_str("leftToRightOrder"),
            EntityQueryPath::RightToLeftOrder => String::from_str("rightToLeftOrder"),
        }
    }
}

impl View for EntityQueryPath {
    type V = EntityQueryPathView;

    open spec fn view(&self) -> EntityQueryPathView {
        self.as_view()
    }
}

impl EntityQueryPathView {
    /// The path as it is written: its tokens with dots between them. The edge to the type
    /// is written with the inheritance depth in brackets where it has one.
    pub open spec fn text(self) -> Seq<char>
        decreases self,
    {
        match self {
            EntityQueryPathView::Uuid => "uuid"@,
            EntityQueryPathView::OwnedById => "ownedById"@,
            EntityQueryPathView::RecordCreatedById => "recordCreatedById"@,
            EntityQueryPathView::EditionId => "editionId"@,
            EntityQueryPathView::DecisionTime => "decisionTime"@,
            EntityQueryPathView::TransactionTime => "transactionTime"@,
            EntityQueryPathView::Archived => "archived"@,
            EntityQueryPathView::Properties(Some(path)) => "properties."@
                + crate::query::json_path_text(path),
            EntityQueryPathView::Properties(None) => "properties"@,
            EntityQueryPathView::EntityTypeEdge {
                edge_kind: SharedEdgeKind::IsOfType,
                path,
                inheritance_depth: Some(depth),
            } => "type("@ + decimal(depth as nat) + ")."@ + path.text(),
            EntityQueryPathView::EntityTypeEdge {
                edge_kind: SharedEdgeKind::IsOfType,
                path,
                inheritance_depth: None,
            } => "type."@ + path.text(),
            EntityQueryPathView::EntityEdge {
                edge_kind: KnowledgeGraphEdgeKind::HasLeftEntity,
                path,
                direction: EdgeDirection::Outgoing,
            } => "leftEntity."@ + path.text(),
            EntityQueryPathView::EntityEdge {
                edge_kind: KnowledgeGraphEdgeKind::HasRightEntity,
                path,
                direction: EdgeDirection::Outgoing,
            } => "rightEntity."@ + path.text(),
            EntityQueryPathView::EntityEdge {
                edge_kind: KnowledgeGraphEdgeKind::HasLeftEntity,
                path,
                direction: EdgeDirection::Incoming,
            } => "outgoingLinks."@ + path.text(),
            EntityQueryPathView::EntityEdge {
                edge_kind: KnowledgeGraphEdgeKind::HasRightEntity,
                path,
                direction: EdgeDirection::Incoming,
            } => "incomingLinks."@ + path.text(),
            EntityQueryPathView::LeftToRightOrder => "leftToRightOrder"@,
            EntityQueryPathView::RightToLeftOrder => "rightToLeftOrder"@,
        }
    }

    /// The type of value that the path leads to.
    pub open spec fn expected_type(self) -> ParameterType
        decreases self,
    {
        match self {
            EntityQueryPathView::EditionId
            | EntityQueryPathView::Uuid
            | EntityQueryPathView::OwnedById
            | EntityQueryPathView::RecordCreatedById => ParameterType::Uuid,
            EntityQueryPathView::DecisionTime
            | EntityQueryPathView::TransactionTime => ParameterType::TimeInterval,
            EntityQueryPathView::Properties(_) => ParameterType::Any,
            EntityQueryPathView::LeftToRightOrder
            | EntityQueryPathView::RightToLeftOrder => ParameterType::Number,
            EntityQueryPathView::Archived => ParameterType::Boolean,
            EntityQueryPathView::EntityTypeEdge { path, .. } => path.expected_type(),
            EntityQueryPathView::EntityEdge { path, .. } => path.expected_type(),
        }
    }
}

impl QueryPath for EntityQueryPath {
    open spec fn spec_expected_type(&self) -> ParameterType {
        self@.expected_type()
    }

    fn expected_type(&self) -> (parameter_type: ParameterType) {
        self.parameter_type()
    }
}

/// A single token of an entity query path.
#[derive(Debug, Clone, Copy, PartialEq, Eq, Structural)]
pub enum EntityQueryToken {
    Uuid,
    EditionId,
    Archived,
    OwnedById,
    RecordCreatedById,
    Type,
    Properties,
    IncomingLinks,
    OutgoingLinks,
    LeftEntity,
    RightEntity,
    LeftToRightOrder,
    RightToLeftOrder,
}

impl EntityQueryToken {
    /// The path that a token without a tail stands for; nothing for a token that leads on
    /// along an edge or into the properties.
    pub open spec fn leaf(self) -> Option<EntityQueryPathView> {
        match self {
            EntityQueryToken::Uuid => Some(EntityQueryPathView::Uuid),
            EntityQueryToken::EditionId => Some(EntityQueryPathView::EditionId),
            EntityQueryToken::OwnedById => Some(EntityQueryPathView::OwnedById),
            EntityQueryToken::RecordCreatedById => Some(EntityQueryPathView::RecordCreatedById),
            EntityQueryToken::Archived => Some(EntityQueryPathView::Archived),
            EntityQueryToken::LeftToRightOrder => Some(EntityQueryPathView::LeftToRightOrder),
            EntityQueryToken::RightToLeftOrder => Some(EntityQueryPathView::RightToLeftOrder),
            _ => None,
        }
    }

    /// The edge that a token leads along, with the direction in which it is followed;
    /// nothing for a token that is no edge between entities.
    pub open spec fn edge(self) -> Option<(KnowledgeGraphEdgeKind, EdgeDirection)> {
        match self {
            EntityQueryToken::LeftEntity => Some(
                (KnowledgeGraphEdgeKind::HasLeftEntity, EdgeDirection::Outgoing),
            ),
            EntityQueryToken::RightEntity => Some(
                (KnowledgeGraphEdgeKind::HasRightEntity, EdgeDirection::Outgoing),
            ),
            EntityQueryToken::OutgoingLinks => Some(
                (KnowledgeGraphEdgeKind::HasLeftEntity, EdgeDirection::Incoming),
            ),
            EntityQueryToken::IncomingLinks => Some(
                (KnowledgeGraphEdgeKind::HasRightEntity, EdgeDirection::Incoming),
            ),
            _ => None,
        }
    }
}

impl QueryToken for EntityQueryToken {
    open spec fn token_of(name: Seq<char>) -> Option<Self> {
        if name == "uuid"@ {
            Some(EntityQueryToken::Uuid)
        } else if name == "editionId"@ {
            Some(EntityQueryToken::EditionId)
        } else if name == "archived"@ {
            Some(EntityQueryToken::Archived)
        } else if name == "ownedById"@ {
            Some(EntityQueryToken::OwnedById)
        } else if name == "recordCreatedById"@ {
            Some(EntityQueryToken::RecordCreatedById)
        } else if name == "type"@ {
            Some(EntityQueryToken::Type)
        } else if name == "properties"@ {
            Some(EntityQueryToken::Properties)
        } else if name == "incomingLinks"@ {
            Some(EntityQueryToken::IncomingLinks)
        } else if name == "outgoingLinks"@ {
            Some(EntityQueryToken::OutgoingLinks)
        } else if name == "leftEntity"@ {
            Some(EntityQueryToken::LeftEntity)
        } else if name == "rightEntity"@ {
            Some(EntityQueryToken::RightEntity)
        } else if name == "leftToRightOrder"@ {
            Some(EntityQueryToken::LeftToRightOrder)
        } else if name == "rightToLeftOrder"@ {
            Some(EntityQueryToken::RightToLeftOrder)
        } else {
            None
        }
    }

    open spec fn all_names() -> Seq<char> {
        EntityQueryPathVisitor::EXPECTING@
    }

    fn from_name(name: &str) -> (token: Option<Self>) {
        if str_eq(name, "uuid") {
            Some(EntityQueryToken::Uuid)
        } else if str_eq(name, "editionId") {
            Some(EntityQueryToken::EditionId)
        } else if str_eq(name, "archived") {
            Some(EntityQueryToken::Archived)
        } else if str_eq(name, "ownedById") {
            Some(EntityQueryToken::OwnedById)
        } else if str_eq(name, "recordCreatedById") {
            Some(EntityQueryToken::RecordCreatedById)
        } else if str_eq(name, "type") {
            Some(EntityQueryToken::Type)
        } else if str_eq(name, "properties") {
            Some(EntityQueryToken::Properties)
        } else if str_eq(name, "incomingLinks") {
            Some(EntityQueryToken::IncomingLinks)
        } else if str_eq(name, "outgoingLinks") {
            Some(EntityQueryToken::OutgoingLinks)
        } else if str_eq(name, "leftEntity") {
            Some(EntityQueryToken::LeftEntity)
        } else if str_eq(name, "rightEntity") {
            Some(EntityQueryToken::RightEntity)
        } else if str_eq(name, "leftToRightOrder") {
            Some(EntityQueryToken::LeftToRightOrder)
        } else if str_eq(name, "rightToLeftOrder") {
            Some(EntityQueryToken::RightToLeftOrder)
        } else {
            None
        }
    }

    fn expecting() -> (names: &'static str) {
        EntityQueryPathVisitor::EXPECTING
    }
}

/// The depth to which the types that an entity type inherits from are followed, as the
/// parameter `inheritanceDepth` gives it; none where the parameter is not there.
pub open spec fn inheritance_depth(parameters: ParametersView) -> Result<
    Option<u32>,
    QueryPathErrorView,
> {
    match parameter_value(parameters, "inheritanceDepth"@) {
        None => Ok(None),
        Some(text) => match number(text) {
            Ok(depth) => Ok(Some(depth as u32)),
            Err(e) => Err(QueryPathErrorView::InvalidNumber(e)),
        },
    }
}

/// What is read behind a token: the path, the position behind it, and the parameters of
/// the token that nothing has asked for.
pub type Tail = (EntityQueryPathView, int, ParametersView);

/// The path that starts with the token at `position` of `segments`, and the position behind
/// it. A token without a tail is the whole path. `type` leads on into the entity type and
/// takes the parameter `inheritanceDepth`; the tokens for edges between entities lead on
/// into another entity; `properties` takes all that follows as a path into the properties.
/// A parameter that the token does not take is refused once the tail is read.
pub open spec fn entity_path_at(segments: Seq<PathTokenView>, position: int) -> Result<
    (EntityQueryPathView, int),
    QueryPathErrorView,
>
    decreases segments.len() - position,
{
    if position < 0 || position >= segments.len() {
        Err(
            QueryPathErrorView::MissingToken {
                position: position as usize,
                expected: EntityQueryPathVisitor::EXPECTING@,
            },
        )
    } else {
        match segments[position] {
            PathTokenView::Index(index) => Err(QueryPathErrorView::UnexpectedIndex { index }),
            PathTokenView::Field(text) => match query_token::<EntityQueryToken>(text) {
                Err(e) => Err(e),
                Ok((token, parameters)) => {
                    let next = position + 1;
                    let tail: Result<Tail, QueryPathErrorView> = if token.leaf() is Some {
                        Ok((token.leaf().unwrap(), next, parameters))
                    } else if token == EntityQueryToken::Type {
                        match entity_type_path_at(segments, next) {
                            Err(e) => Err(e),
                            Ok((path, after)) => match inheritance_depth(parameters) {
                                Err(e) => Err(e),
                                Ok(depth) => Ok(
                                    (
                                        EntityQueryPathView::EntityTypeEdge {
                                            edge_kind: SharedEdgeKind::IsOfType,
                                            path,
                                            inheritance_depth: depth,
                                        },
                                        after,
                                        without_parameter(parameters, "inheritanceDepth"@),
                                    ),
                                ),
                            },
                        }
                    } else if token == EntityQueryToken::Properties {
                        Ok(
                            (
                                EntityQueryPathView::Properties(
                                    if next == segments.len() {
                                        None
                                    } else {
                                        Some(segments.subrange(next, segments.len() as int))
                                    },
                                ),
                                segments.len() as int,
                                parameters,
                            ),
                        )
                    } else {
                        match entity_path_at(segments, next) {
                            Err(e) => Err(e),
                            Ok((path, after)) => Ok(
                                (
                                    EntityQueryPathView::EntityEdge {
                                        edge_kind: token.edge().unwrap().0,
                                        path: Box::new(path),
                                        direction: token.edge().unwrap().1,
                                    },
                                    after,
                                    parameters,
                                ),
                            ),
                        }
                    };
                    match tail {
                        Err(e) => Err(e),
                        Ok((path, after, unused)) => if unused.len() > 0 {
                            Err(QueryPathErrorView::UnknownParameters(parameter_keys(unused)))
                        } else {
                            Ok((path, after))
                        },
                    }
                },
            },
        }
    }
}

/// The path that the whole of `segments` stands for. Tokens behind the end of the path are
/// refused.
pub open spec fn entity_path(segments: Seq<PathTokenView>) -> Result<
    EntityQueryPathView,
    QueryPathErrorView,
> {
    match entity_path_at(segments, 0) {
        Err(e) => Err(e),
        Ok((path, after)) => if after < segments.len() {
            Err(
                QueryPathErrorView::TrailingTokens {
                    length: segments.len() as usize,
                    consumed: after as usize,
                },
            )
        } else {
            Ok(path)
        },
    }
}

/// A path ends within the sequence, behind where it starts.
pub proof fn lemma_entity_path_at(segments: Seq<PathTokenView>, position: int)
    ensures
        entity_path_at(segments, position) matches Ok((_, after)) ==> position < after
            <= segments.len(),
    decreases segments.len() - position,
{
    if 0 <= position < segments.len() {
        lemma_entity_path_at(segments, position + 1);
    }
}

/// Reads an entity query path from a sequence of tokens.
pub struct EntityQueryPathVisitor {
    /// The position in the sequence at which reading goes on.
    position: usize,
}

impl EntityQueryPathVisitor {
    /// The tokens that an entity query path can start with.
    pub const EXPECTING: &'static str =
        "one of `uuid`, `editionId`, `archived`, `ownedById`, `recordCreatedById`, `type`, `properties`, `incomingLinks`, `outgoingLinks`, `leftEntity`, `rightEntity`, `leftToRightOrder`, `rightToLeftOrder`";

    /// The position in the sequence at which the visitor reads next.
    pub closed spec fn spec_position(&self) -> usize {
        self.position
    }

    /// A visitor that starts to read at `position`.
    #[must_use]
    pub fn new(position: usize) -> (visitor: EntityQueryPathVisitor)
        ensures
            visitor.spec_position() == position,
    {
        EntityQueryPathVisitor { position }
    }

    /// The position in the sequence at which the visitor reads next.
    #[verifier::when_used_as_spec(spec_position)]
    pub fn position(&self) -> (position: usize)
        ensures
            position == self.spec_position(),
    {
        self.position
    }

    /// Reads the path that starts at the visitor's position of `seq`, and says where it
    /// ends.
    pub fn visit_seq(self, seq: &Vec<PathToken>) -> (res: Result<
        (EntityQueryPath, usize),
        QueryPathError,
    >)
        ensures
            match entity_path_at(tokens_view(seq@), self.spec_position() as int) {
                Ok((path, after)) => res matches Ok((p, a)) && p@ == path && a == after,
                Err(e) => res matches Err(err) && err@ == e,
            },
        decreases seq@.len() - self.spec_position(),
    {
        let ghost segments = tokens_view(seq@);
        if self.position >= seq.len() {
            return Err(
                QueryPathError::MissingToken { position: self.position, expected: Self::EXPECTING },
            );
        }
        assert(segments[self.position as int] == seq@[self.position as int]@);
        let text = match &seq[self.position] {
            PathToken::Index(index) => {
                return Err(QueryPathError::UnexpectedIndex { index: *index });
            },
            PathToken::Field(text) => text,
        };
        let (token, mut parameters) = match parse_query_token::<EntityQueryToken>(text.as_str()) {
            Ok(parsed) => parsed,
            Err(e) => {
                return Err(e);
            },
        };
        let next = self.position + 1;
        proof {
            lemma_entity_path_at(segments, next as int);
        }
        let (path, after) = match token {
            EntityQueryToken::Uuid => (EntityQueryPath::Uuid, next),
            EntityQueryToken::EditionId => (EntityQueryPath::EditionId, next),
            EntityQueryToken::OwnedById => (EntityQueryPath::OwnedById, next),
            EntityQueryToken::RecordCreatedById => (EntityQueryPath::RecordCreatedById, next),
            EntityQueryToken::Archived => (EntityQueryPath::Archived, next),
            EntityQueryToken::LeftToRightOrder => (EntityQueryPath::LeftToRightOrder, next),
            EntityQueryToken::RightToLeftOrder => (EntityQueryPath::RightToLeftOrder, next),
            EntityQueryToken::Type => {
                let (path, after) = match EntityTypeQueryPathVisitor::new(next).visit_seq(seq) {
                    Ok(read) => read,
                    Err(e) => {
                        return Err(e);
                    },
                };
                let inheritance_depth = match take_parameter(&mut parameters, "inheritanceDepth") {
                    None => None,
                    Some(text) => match parse_number(text.as_str()) {
                        Ok(depth) => Some(depth),
                        Err(e) => {
                            return Err(QueryPathError::InvalidNumber(e));
                        },
                    },
                };
                (
                    EntityQueryPath::EntityTypeEdge {
                        edge_kind: SharedEdgeKind::IsOfType,
                        path,
                        inheritance_depth,
                    },
                    after,
                )
            },
            EntityQueryToken::Properties => {
                let mut path_tokens: Vec<PathToken> = Vec::new();
                let mut i: usize = next;
                while i < seq.len()
                    invariant
                        next <= i <= seq.len(),
                        segments == tokens_view(seq@),
                        tokens_view(path_tokens@) == segments.subrange(next as int, i as int),
                    decreases seq.len() - i,
                {
                    let ghost before = tokens_view(path_tokens@);
                    let copy = match &seq[i] {
                        PathToken::Field(name) => PathToken::Field(name.clone()),
                        PathToken::Index(index) => PathToken::Index(*index),
                    };
                    assert(copy@ == segments[i as int]);
                    path_tokens.push(copy);
                    assert(tokens_view(path_tokens@) =~= before.push(copy@));
                    assert(tokens_view(path_tokens@) =~= segments.subrange(next as int, i + 1));
                    i += 1;
                }
                if path_tokens.len() == 0 {
                    (EntityQueryPath::Properties(None), seq.len())
                } else {
                    (
                        EntityQueryPath::Properties(Some(JsonPath::from_path_tokens(path_tokens))),
                        seq.len(),
                    )
                }
            },
            EntityQueryToken::LeftEntity => {
                match EntityQueryPathVisitor::new(next).visit_seq(seq) {
                    Ok((path, after)) => (
                        EntityQueryPath::EntityEdge {
                            edge_kind: KnowledgeGraphEdgeKind::HasLeftEntity,
                            path: Box::new(path),
                            direction: EdgeDirection::Outgoing,
                        },
                        after,
                    ),
                    Err(e) => {
                        return Err(e);
                    },
                }
            },
            EntityQueryToken::RightEntity => {
                match EntityQueryPathVisitor::new(next).visit_seq(seq) {
                    Ok((path, after)) => (
                        EntityQueryPath::EntityEdge {
                            edge_kind: KnowledgeGraphEdgeKind::HasRightEntity,
                            path: Box::new(path),
                            direction: EdgeDirection::Outgoing,
                        },
                        after,
                    ),
                    Err(e) => {
                        return Err(e);
                    },
                }
            },
            EntityQueryToken::OutgoingLinks => {
                match EntityQueryPathVisitor::new(next).visit_seq(seq) {
                    Ok((path, after)) => (
                        EntityQueryPath::EntityEdge {
                            edge_kind: KnowledgeGraphEdgeKind::HasLeftEntity,
                            path: Box::new(path),
                            direction: EdgeDirection::Incoming,
                        },
                        after,
                    ),
                    Err(e) => {
                        return Err(e);
                    },
                }
            },
            EntityQueryToken::IncomingLinks => {
                match EntityQueryPathVisitor::new(next).visit_seq(seq) {
                    Ok((path, after)) => (
                        EntityQueryPath::EntityEdge {
                            edge_kind: KnowledgeGraphEdgeKind::HasRightEntity,
                            path: Box::new(path),
                            direction: EdgeDirection::Incoming,
                        },
                        after,
                    ),
                    Err(e) => {
                        return Err(e);
                    },
                }
            },
        };
        if parameters.len() > 0 {
            return Err(QueryPathError::UnknownParameters(keys_of(&parameters)));
        }
        Ok((path, after))
    }
}

impl EntityQueryPath {
    /// Reads the path that the whole of `segments` stands for.
    pub fn deserialize(segments: &Vec<PathToken>) -> (res: Result<EntityQueryPath, QueryPathError>)
        ensures
            match entity_path(tokens_view(segments@)) {
                Ok(path) => res matches Ok(p) && p@ == path,
                Err(e) => res matches Err(err) && err@ == e,
            },
    {
        match EntityQueryPathVisitor::new(0).visit_seq(segments) {
            Err(e) => Err(e),
            Ok((path, after)) => {
                if after < segments.len() {
                    Err(QueryPathError::TrailingTokens { length: segments.len(), consumed: after })
                } else {
                    Ok(path)
                }
            },
        }
    }
}

} // verus!
