use workerpool::knowledge::{
    EdgeDirection, EntityQueryPath, EntityQueryPathVisitor, EntityQueryToken,
    KnowledgeGraphEdgeKind, SharedEdgeKind,
};
use workerpool::ontology::{
    EntityTypeQueryPath, EntityTypeQueryPathVisitor, EntityTypeQueryToken,
};
use workerpool::query::{
    join, parse_query_token, JsonPath, OntologyQueryPath, ParameterType, PathToken, QueryPath,
    QueryPathError, QueryToken,
};
use workerpool::text::{
    decimal_text, find_char, parse_number, split_text_once, str_eq, trim_text, white_space,
    NumberError,
};

fn fields(segments: &[&str]) -> Vec<PathToken> {
    segments.iter().map(|s| PathToken::Field(s.to_string())).collect()
}

fn deserialize(segments: &[&str]) -> EntityQueryPath {
    EntityQueryPath::deserialize(&fields(segments)).expect("could not deserialize path")
}

fn refused(segments: &[&str]) -> QueryPathError {
    EntityQueryPath::deserialize(&fields(segments)).expect_err("the path is refused")
}

fn text(s: &str) -> String {
    s.to_string()
}

#[test]
fn deserialization() {
    assert_eq!(deserialize(&["ownedById"]), EntityQueryPath::OwnedById);
    assert_eq!(
        deserialize(&["type", "version"]),
        EntityQueryPath::EntityTypeEdge {
            edge_kind: SharedEdgeKind::IsOfType,
            path: EntityTypeQueryPath::Version,
            inheritance_depth: None,
        }
    );
    assert_eq!(
        deserialize(&["type(inheritanceDepth = 5)", "version"]),
        EntityQueryPath::EntityTypeEdge {
            edge_kind: SharedEdgeKind::IsOfType,
            path: EntityTypeQueryPath::Version,
            inheritance_depth: Some(5),
        }
    );
    assert_eq!(
        deserialize(&["properties", "https://blockprotocol.org/@alice/types/property-type/name/"]),
        EntityQueryPath::Properties(Some(JsonPath::from_path_tokens(vec![PathToken::Field(
            text("https://blockprotocol.org/@alice/types/property-type/name/")
        )])))
    );
    assert_eq!(
        deserialize(&["leftEntity", "uuid"]),
        EntityQueryPath::EntityEdge {
            edge_kind: KnowledgeGraphEdgeKind::HasLeftEntity,
            path: Box::new(EntityQueryPath::Uuid),
            direction: EdgeDirection::Outgoing
        }
    );

    assert_eq!(
        EntityQueryPath::deserialize(&fields(&["invalid"]))
            .expect_err(
                "managed to convert entity query path with hidden token when it should have \
                 errored"
            )
            .message(),
        format!("unknown variant `invalid`, expected {}", EntityQueryPathVisitor::EXPECTING)
    );

    assert_eq!(
        EntityQueryPath::deserialize(&fields(&["editionId", "test"]))
            .expect_err(
                "managed to convert entity query path with multiple tokens when it should have \
                 errored"
            )
            .message(),
        "invalid length 2, expected 1 element in sequence"
    );
}

#[test]
fn every_token_without_a_tail_is_a_path() {
    assert_eq!(deserialize(&["uuid"]), EntityQueryPath::Uuid);
    assert_eq!(deserialize(&["editionId"]), EntityQueryPath::EditionId);
    assert_eq!(deserialize(&["archived"]), EntityQueryPath::Archived);
    assert_eq!(deserialize(&["recordCreatedById"]), EntityQueryPath::RecordCreatedById);
    assert_eq!(deserialize(&["leftToRightOrder"]), EntityQueryPath::LeftToRightOrder);
    assert_eq!(deserialize(&["rightToLeftOrder"]), EntityQueryPath::RightToLeftOrder);
    assert_eq!(deserialize(&["uuid()"]), EntityQueryPath::Uuid);
    assert_eq!(deserialize(&["uuid( , )"]), EntityQueryPath::Uuid);
    assert_eq!(deserialize(&["properties"]), EntityQueryPath::Properties(None));
}

#[test]
fn edges_between_entities_lead_on_into_the_other_entity() {
    let edge = |edge_kind, direction, path| EntityQueryPath::EntityEdge {
        edge_kind,
        path: Box::new(path),
        direction,
    };
    assert_eq!(
        deserialize(&["rightEntity", "uuid"]),
        edge(KnowledgeGraphEdgeKind::HasRightEntity, EdgeDirection::Outgoing, EntityQueryPath::Uuid)
    );
    assert_eq!(
        deserialize(&["incomingLinks", "uuid"]),
        edge(KnowledgeGraphEdgeKind::HasRightEntity, EdgeDirection::Incoming, EntityQueryPath::Uuid)
    );
    assert_eq!(
        deserialize(&["outgoingLinks", "archived"]),
        edge(KnowledgeGraphEdgeKind::HasLeftEntity, EdgeDirection::Incoming, EntityQueryPath::Archived)
    );
    assert_eq!(
        deserialize(&["outgoingLinks", "rightEntity", "type(inheritanceDepth=+10)", "baseUrl"]),
        edge(
            KnowledgeGraphEdgeKind::HasLeftEntity,
            EdgeDirection::Incoming,
            edge(
                KnowledgeGraphEdgeKind::HasRightEntity,
                EdgeDirection::Outgoing,
                EntityQueryPath::EntityTypeEdge {
                    edge_kind: SharedEdgeKind::IsOfType,
                    path: EntityTypeQueryPath::BaseUrl,
                    inheritance_depth: Some(10),
                }
            )
        )
    );
}

#[test]
fn properties_take_all_that_follows() {
    let segments = vec![
        PathToken::Field(text("properties")),
        PathToken::Field(text("https://blockprotocol.org/@blockprotocol/types/property-type/address/")),
        PathToken::Index(0),
        PathToken::Field(text("street")),
    ];
    let path = EntityQueryPath::deserialize(&segments).expect("could not deserialize path");
    assert_eq!(
        path,
        EntityQueryPath::Properties(Some(JsonPath::from_path_tokens(vec![
            PathToken::Field(text("https://blockprotocol.org/@blockprotocol/types/property-type/address/")),
            PathToken::Index(0),
            PathToken::Field(text("street")),
        ])))
    );
    assert_eq!(
        path.render(),
        r#"properties.$."https://blockprotocol.org/@blockprotocol/types/property-type/address/"[0]."street""#
    );
    assert_eq!(path.expected_type(), ParameterType::Any);
}

#[test]
fn paths_are_written_with_dots_between_their_tokens() {
    assert_eq!(EntityQueryPath::Uuid.render(), "uuid");
    assert_eq!(EntityQueryPath::OwnedById.render(), "ownedById");
    assert_eq!(EntityQueryPath::RecordCreatedById.render(), "recordCreatedById");
    assert_eq!(EntityQueryPath::EditionId.render(), "editionId");
    assert_eq!(EntityQueryPath::DecisionTime.render(), "decisionTime");
    assert_eq!(EntityQueryPath::TransactionTime.render(), "transactionTime");
    assert_eq!(EntityQueryPath::Archived.render(), "archived");
    assert_eq!(EntityQueryPath::Properties(None).render(), "properties");
    assert_eq!(EntityQueryPath::LeftToRightOrder.render(), "leftToRightOrder");
    assert_eq!(EntityQueryPath::RightToLeftOrder.render(), "rightToLeftOrder");
    assert_eq!(deserialize(&["type(inheritanceDepth = 120)", "version"]).render(), "type(120).version");
    assert_eq!(deserialize(&["type", "versionedUrl"]).render(), "type.versionedUrl");
    assert_eq!(deserialize(&["leftEntity", "uuid"]).render(), "leftEntity.uuid");
    assert_eq!(deserialize(&["rightEntity", "uuid"]).render(), "rightEntity.uuid");
    assert_eq!(deserialize(&["incomingLinks", "uuid"]).render(), "incomingLinks.uuid");
    assert_eq!(
        deserialize(&["outgoingLinks", "leftEntity", "properties", "a"]).render(),
        r#"outgoingLinks.leftEntity.properties.$."a""#
    );
    assert_eq!(JsonPath::from_path_tokens(vec![]).render(), "$");
    assert_eq!(
        JsonPath::from_path_tokens(vec![PathToken::Index(12), PathToken::Index(0)]).render(),
        "$[12][0]"
    );
}

#[test]
fn every_path_leads_to_a_type_of_value() {
    assert_eq!(EntityQueryPath::Uuid.expected_type(), ParameterType::Uuid);
    assert_eq!(EntityQueryPath::EditionId.expected_type(), ParameterType::Uuid);
    assert_eq!(EntityQueryPath::OwnedById.expected_type(), ParameterType::Uuid);
    assert_eq!(EntityQueryPath::RecordCreatedById.expected_type(), ParameterType::Uuid);
    assert_eq!(EntityQueryPath::DecisionTime.expected_type(), ParameterType::TimeInterval);
    assert_eq!(EntityQueryPath::TransactionTime.expected_type(), ParameterType::TimeInterval);
    assert_eq!(EntityQueryPath::Properties(None).expected_type(), ParameterType::Any);
    assert_eq!(EntityQueryPath::LeftToRightOrder.expected_type(), ParameterType::Number);
    assert_eq!(EntityQueryPath::RightToLeftOrder.expected_type(), ParameterType::Number);
    assert_eq!(EntityQueryPath::Archived.expected_type(), ParameterType::Boolean);
    assert_eq!(deserialize(&["type", "version"]).expected_type(), ParameterType::OntologyTypeVersion);
    assert_eq!(deserialize(&["type", "baseUrl"]).parameter_type(), ParameterType::BaseUrl);
    assert_eq!(
        deserialize(&["leftEntity", "incomingLinks", "archived"]).expected_type(),
        ParameterType::Boolean
    );
}

#[test]
fn the_types_of_values_have_names() {
    assert_eq!(ParameterType::Boolean.name(), "boolean");
    assert_eq!(ParameterType::Number.name(), "number");
    assert_eq!(ParameterType::OntologyTypeVersion.name(), "ontology type version");
    assert_eq!(ParameterType::Text.name(), "text");
    assert_eq!(ParameterType::Uuid.name(), "UUID");
    assert_eq!(ParameterType::BaseUrl.name(), "base URL");
    assert_eq!(ParameterType::VersionedUrl.name(), "versioned URL");
    assert_eq!(ParameterType::TimeInterval.name(), "time interval");
    assert_eq!(ParameterType::Timestamp.name(), "timestamp");
    assert_eq!(ParameterType::Object.name(), "object");
    assert_eq!(ParameterType::Any.name(), "any");
}

#[test]
fn a_sequence_that_ends_too_early_is_refused() {
    assert_eq!(
        refused(&[]),
        QueryPathError::MissingToken { position: 0, expected: EntityQueryPathVisitor::EXPECTING }
    );
    assert_eq!(
        refused(&["leftEntity", "rightEntity"]),
        QueryPathError::MissingToken { position: 2, expected: EntityQueryPathVisitor::EXPECTING }
    );
    assert_eq!(
        refused(&["type"]),
        QueryPathError::MissingToken { position: 1, expected: EntityTypeQueryPathVisitor::EXPECTING }
    );
    assert_eq!(
        refused(&["leftEntity"]).message(),
        format!("invalid length 1, expected {}", EntityQueryPathVisitor::EXPECTING)
    );
}

#[test]
fn tokens_behind_the_end_of_the_path_are_refused() {
    assert_eq!(
        refused(&["uuid", "uuid", "uuid"]),
        QueryPathError::TrailingTokens { length: 3, consumed: 1 }
    );
    assert_eq!(
        refused(&["leftEntity", "type", "version", "x"]),
        QueryPathError::TrailingTokens { length: 4, consumed: 3 }
    );
    assert_eq!(
        refused(&["leftEntity", "type", "version", "x"]).message(),
        "invalid length 4, expected 3 elements in sequence"
    );
    assert_eq!(
        QueryPathError::TrailingTokens { length: 1, consumed: 0 }.message(),
        "invalid length 1, expected 0 elements in sequence"
    );
}

#[test]
fn a_number_where_a_token_must_stand_is_refused() {
    let segments = vec![PathToken::Field(text("leftEntity")), PathToken::Index(3)];
    let error = EntityQueryPath::deserialize(&segments).expect_err("a number is no token");
    assert_eq!(error, QueryPathError::UnexpectedIndex { index: 3 });
    assert_eq!(error.message(), "invalid type: integer `3`, expected a string");
    assert_eq!(
        EntityQueryPath::deserialize(&vec![PathToken::Field(text("type")), PathToken::Index(0)]),
        Err(QueryPathError::UnexpectedIndex { index: 0 })
    );
}

#[test]
fn an_unknown_token_is_refused() {
    assert_eq!(
        refused(&["decisionTime"]),
        QueryPathError::UnknownVariant {
            variant: text("decisionTime"),
            expected: EntityQueryPathVisitor::EXPECTING
        }
    );
    assert_eq!(
        refused(&["type", "uuid"]),
        QueryPathError::UnknownVariant {
            variant: text("uuid"),
            expected: EntityTypeQueryPathVisitor::EXPECTING
        }
    );
    assert_eq!(
        refused(&["Uuid"]).message(),
        "unknown variant `Uuid`, expected one of `uuid`, `editionId`, `archived`, `ownedById`, \
         `recordCreatedById`, `type`, `properties`, `incomingLinks`, `outgoingLinks`, \
         `leftEntity`, `rightEntity`, `leftToRightOrder`, `rightToLeftOrder`"
    );
}

#[test]
fn parameters_that_a_token_does_not_take_are_refused() {
    assert_eq!(
        refused(&["uuid(a=1)"]),
        QueryPathError::UnknownParameters(vec![text("a")])
    );
    assert_eq!(
        refused(&["type(b = 2, inheritanceDepth = 1, a = 3, b = 4)", "version"]),
        QueryPathError::UnknownParameters(vec![text("b"), text("a")])
    );
    assert_eq!(
        refused(&["type(b = 2, a = 3)", "version"]).message(),
        "unknown parameters: b, a"
    );
    assert_eq!(
        refused(&["type", "version(inheritanceDepth=1)"]),
        QueryPathError::UnknownParameters(vec![text("inheritanceDepth")])
    );
    assert_eq!(
        refused(&["leftEntity(x=y)", "uuid"]),
        QueryPathError::UnknownParameters(vec![text("x")])
    );
    assert_eq!(
        refused(&["leftEntity(x=y)", "nothing"]),
        QueryPathError::UnknownVariant {
            variant: text("nothing"),
            expected: EntityQueryPathVisitor::EXPECTING
        }
    );
}

#[test]
fn an_inheritance_depth_must_be_a_number() {
    assert_eq!(
        refused(&["type(inheritanceDepth = five)", "version"]),
        QueryPathError::InvalidNumber(NumberError::InvalidDigit)
    );
    assert_eq!(
        refused(&["type(inheritanceDepth = )", "version"]),
        QueryPathError::InvalidNumber(NumberError::Empty)
    );
    assert_eq!(
        refused(&["type(inheritanceDepth = 4294967296)", "version"]),
        QueryPathError::InvalidNumber(NumberError::TooLarge)
    );
    assert_eq!(
        deserialize(&["type(inheritanceDepth = 1, inheritanceDepth = 4294967295)", "version"]),
        EntityQueryPath::EntityTypeEdge {
            edge_kind: SharedEdgeKind::IsOfType,
            path: EntityTypeQueryPath::Version,
            inheritance_depth: Some(4294967295),
        }
    );
    assert_eq!(
        refused(&["type(inheritanceDepth = x)", "nothing"]),
        QueryPathError::UnknownVariant {
            variant: text("nothing"),
            expected: EntityTypeQueryPathVisitor::EXPECTING
        }
    );
    assert_eq!(
        QueryPathError::InvalidNumber(NumberError::InvalidDigit).message(),
        "invalid digit found in string"
    );
    assert_eq!(
        QueryPathError::InvalidNumber(NumberError::Empty).message(),
        "cannot parse integer from empty string"
    );
    assert_eq!(
        QueryPathError::InvalidNumber(NumberError::TooLarge).message(),
        "number too large to fit in target type"
    );
}

#[test]
fn a_query_token_is_a_name_with_optional_parameters() {
    let pair = |k: &str, v: &str| (text(k), text(v));
    assert_eq!(parse_query_token::<EntityQueryToken>("uuid"), Ok((EntityQueryToken::Uuid, vec![])));
    assert_eq!(parse_query_token::<EntityQueryToken>("type()"), Ok((EntityQueryToken::Type, vec![])));
    assert_eq!(
        parse_query_token::<EntityQueryToken>("type(a=b)"),
        Ok((EntityQueryToken::Type, vec![pair("a", "b")]))
    );
    assert_eq!(
        parse_query_token::<EntityQueryToken>("type( a = b ,, c=d=e ,\ta=\u{3000}z\u{a0},)"),
        Ok((EntityQueryToken::Type, vec![pair("a", "z"), pair("c", "d=e")]))
    );
    assert_eq!(
        parse_query_token::<EntityQueryToken>("type(=)"),
        Ok((EntityQueryToken::Type, vec![pair("", "")]))
    );
    assert_eq!(
        parse_query_token::<EntityTypeQueryToken>("versionedUrl(k = (v))"),
        Ok((EntityTypeQueryToken::VersionedUrl, vec![pair("k", "(v)")]))
    );
}

#[test]
fn a_malformed_query_token_is_refused() {
    assert_eq!(
        parse_query_token::<EntityQueryToken>("type(a=b"),
        Err(QueryPathError::MissingClosingParenthesis)
    );
    assert_eq!(
        parse_query_token::<EntityQueryToken>("type("),
        Err(QueryPathError::MissingClosingParenthesis)
    );
    assert_eq!(
        parse_query_token::<EntityQueryToken>("type(a=b) "),
        Err(QueryPathError::MissingClosingParenthesis)
    );
    assert_eq!(
        parse_query_token::<EntityQueryToken>("type(a)"),
        Err(QueryPathError::MissingParameterValue)
    );
    assert_eq!(
        parse_query_token::<EntityQueryToken>("nothing(a=b, c)"),
        Err(QueryPathError::MissingParameterValue)
    );
    assert_eq!(
        parse_query_token::<EntityQueryToken>("nothing(a=b"),
        Err(QueryPathError::MissingClosingParenthesis)
    );
    assert_eq!(
        parse_query_token::<EntityQueryToken>("type (a=b)"),
        Err(QueryPathError::UnknownVariant {
            variant: text("type "),
            expected: EntityQueryPathVisitor::EXPECTING
        })
    );
    assert_eq!(
        parse_query_token::<EntityQueryToken>(""),
        Err(QueryPathError::UnknownVariant {
            variant: text(""),
            expected: EntityQueryPathVisitor::EXPECTING
        })
    );
    assert_eq!(QueryPathError::MissingClosingParenthesis.message(), "missing closing parenthesis");
    assert_eq!(
        QueryPathError::MissingParameterValue.message(),
        "missing parameter value, expected `key=value`"
    );
}

#[test]
fn tokens_are_found_by_their_names() {
    let names = [
        ("uuid", EntityQueryToken::Uuid),
        ("editionId", EntityQueryToken::EditionId),
        ("archived", EntityQueryToken::Archived),
        ("ownedById", EntityQueryToken::OwnedById),
        ("recordCreatedById", EntityQueryToken::RecordCreatedById),
        ("type", EntityQueryToken::Type),
        ("properties", EntityQueryToken::Properties),
        ("incomingLinks", EntityQueryToken::IncomingLinks),
        ("outgoingLinks", EntityQueryToken::OutgoingLinks),
        ("leftEntity", EntityQueryToken::LeftEntity),
        ("rightEntity", EntityQueryToken::RightEntity),
        ("leftToRightOrder", EntityQueryToken::LeftToRightOrder),
        ("rightToLeftOrder", EntityQueryToken::RightToLeftOrder),
    ];
    for (name, token) in names {
        assert_eq!(EntityQueryToken::from_name(name), Some(token));
        assert!(EntityQueryPathVisitor::EXPECTING.contains(&format!("`{name}`")));
    }
    assert_eq!(EntityQueryToken::from_name("transactionTime"), None);
    assert_eq!(EntityQueryToken::expecting(), EntityQueryPathVisitor::EXPECTING);
    assert_eq!(EntityTypeQueryToken::from_name("baseUrl"), Some(EntityTypeQueryToken::BaseUrl));
    assert_eq!(EntityTypeQueryToken::from_name("version"), Some(EntityTypeQueryToken::Version));
    assert_eq!(
        EntityTypeQueryToken::from_name("versionedUrl"),
        Some(EntityTypeQueryToken::VersionedUrl)
    );
    assert_eq!(
        EntityTypeQueryToken::from_name("recordCreatedById"),
        Some(EntityTypeQueryToken::RecordCreatedById)
    );
    assert_eq!(
        EntityTypeQueryToken::from_name("recordArchivedById"),
        Some(EntityTypeQueryToken::RecordArchivedById)
    );
    assert_eq!(EntityTypeQueryToken::from_name("schema"), None);
    assert_eq!(EntityTypeQueryToken::expecting(), EntityTypeQueryPathVisitor::EXPECTING);
}

#[test]
fn a_visitor_reads_from_its_position_on() {
    let segments = fields(&["leftEntity", "type", "version", "uuid"]);
    assert_eq!(EntityQueryPathVisitor::new(3).position(), 3);
    assert_eq!(
        EntityQueryPathVisitor::new(3).visit_seq(&segments),
        Ok((EntityQueryPath::Uuid, 4))
    );
    assert_eq!(
        EntityQueryPathVisitor::new(1).visit_seq(&segments),
        Ok((
            EntityQueryPath::EntityTypeEdge {
                edge_kind: SharedEdgeKind::IsOfType,
                path: EntityTypeQueryPath::Version,
                inheritance_depth: None,
            },
            3
        ))
    );
    assert_eq!(
        EntityTypeQueryPathVisitor::new(2).visit_seq(&segments),
        Ok((EntityTypeQueryPath::Version, 3))
    );
    assert_eq!(
        EntityQueryPathVisitor::new(4).visit_seq(&segments),
        Err(QueryPathError::MissingToken { position: 4, expected: EntityQueryPathVisitor::EXPECTING })
    );
}

#[test]
fn every_ontology_type_offers_the_common_paths() {
    assert_eq!(EntityTypeQueryPath::ontology_id(), EntityTypeQueryPath::OntologyId);
    assert_eq!(EntityTypeQueryPath::base_url(), EntityTypeQueryPath::BaseUrl);
    assert_eq!(EntityTypeQueryPath::versioned_url(), EntityTypeQueryPath::VersionedUrl);
    assert_eq!(EntityTypeQueryPath::version(), EntityTypeQueryPath::Version);
    assert_eq!(EntityTypeQueryPath::transaction_time(), EntityTypeQueryPath::TransactionTime);
    assert_eq!(EntityTypeQueryPath::record_created_by_id(), EntityTypeQueryPath::RecordCreatedById);
    assert_eq!(EntityTypeQueryPath::record_archived_by_id(), EntityTypeQueryPath::RecordArchivedById);
    assert_eq!(EntityTypeQueryPath::schema(), EntityTypeQueryPath::Schema(None));
    assert_eq!(EntityTypeQueryPath::additional_metadata(), EntityTypeQueryPath::AdditionalMetadata(None));

    let expected = [
        (EntityTypeQueryPath::OntologyId, ParameterType::Uuid, "ontologyId"),
        (EntityTypeQueryPath::BaseUrl, ParameterType::BaseUrl, "baseUrl"),
        (EntityTypeQueryPath::VersionedUrl, ParameterType::VersionedUrl, "versionedUrl"),
        (EntityTypeQueryPath::Version, ParameterType::OntologyTypeVersion, "version"),
        (EntityTypeQueryPath::TransactionTime, ParameterType::TimeInterval, "transactionTime"),
        (EntityTypeQueryPath::RecordCreatedById, ParameterType::Uuid, "recordCreatedById"),
        (EntityTypeQueryPath::RecordArchivedById, ParameterType::Uuid, "recordArchivedById"),
        (EntityTypeQueryPath::Schema(None), ParameterType::Any, "schema"),
        (EntityTypeQueryPath::AdditionalMetadata(None), ParameterType::Object, "additionalMetadata"),
    ];
    for (path, parameter_type, written) in expected {
        assert_eq!(path.expected_type(), parameter_type);
        assert_eq!(path.render(), written);
    }
    let json = || Some(JsonPath::from_path_tokens(vec![PathToken::Field(text("title"))]));
    assert_eq!(EntityTypeQueryPath::Schema(json()).render(), r#"schema.$."title""#);
    assert_eq!(
        EntityTypeQueryPath::AdditionalMetadata(json()).render(),
        r#"additionalMetadata.$."title""#
    );
}

#[test]
fn numbers_are_read_as_the_standard_library_reads_them() {
    let texts = [
        "", "+", "-", "0", "+0", "-0", "007", "42", "+42", "4294967295", "4294967296",
        "42949672950", "99999999999999999999", "12a", "a12", " 12", "12 ", "1_000", "+-1", "++1",
        "٣", "4294967295x", "42949672960x",
    ];
    for text in texts {
        let expected = text.parse::<u32>().map_err(|e| e.to_string());
        let read = parse_number(text).map_err(|e| e.message().to_string());
        assert_eq!(read, expected, "reading {text:?}");
    }
    assert_eq!(parse_number("4294967295"), Ok(u32::MAX));
    assert_eq!(parse_number("+"), Err(NumberError::InvalidDigit));
    assert_eq!(parse_number(""), Err(NumberError::Empty));
    assert_eq!(parse_number("4294967296"), Err(NumberError::TooLarge));
}

#[test]
fn numbers_are_written_in_decimal() {
    for n in [0u64, 1, 9, 10, 11, 99, 100, 101, 4294967295, 18446744073709551615] {
        assert_eq!(decimal_text(n), n.to_string());
    }
}

#[test]
fn text_is_trimmed_as_the_standard_library_trims_it() {
    let texts = [
        "", " ", "a", " a", "a ", "  a b  ", "\t\n\r a\u{b}\u{c}", "\u{85}a\u{a0}",
        "\u{1680}\u{2000}\u{200a}a\u{2028}\u{2029}\u{202f}\u{205f}\u{3000}", "\u{200b}a\u{200b}",
        "\u{feff}a", " \u{1f}a ", "   ",
    ];
    for text in texts {
        assert_eq!(trim_text(text), text.trim(), "trimming {text:?}");
    }
    for code in 0..0x3100u32 {
        if let Some(c) = char::from_u32(code) {
            assert_eq!(white_space(c), c.is_whitespace(), "white space {code:#x}");
        }
    }
    assert!(!white_space('\u{10ffff}'));
}

#[test]
fn text_is_searched_and_split_at_the_first_hit() {
    assert_eq!(find_char("a=b=c", '='), 1);
    assert_eq!(find_char("äö=", '='), 2);
    assert_eq!(find_char("abc", '='), 3);
    assert_eq!(find_char("", '='), 0);
    assert_eq!(split_text_once("a=b=c", '='), Some(("a", "b=c")));
    assert_eq!(split_text_once("=", '='), Some(("", "")));
    assert_eq!(split_text_once("äö=ü", '='), Some(("äö", "ü")));
    assert_eq!(split_text_once("abc", '='), None);
    assert!(str_eq("type", "type"));
    assert!(!str_eq("type", "typo"));
    assert!(!str_eq("type", "types"));
    assert!(str_eq("", ""));
    assert_eq!(join(&vec![], ", "), "");
    assert_eq!(join(&vec![text("a")], ", "), "a");
    assert_eq!(join(&vec![text("a"), text(""), text("c")], ", "), "a, , c");
}
