//! What every query path has in common: the type of value it leads to, and the tokens of a
//! path into a JSON value.

use vstd::prelude::*;
use vstd::string::*;
use crate::text::{
    decimal, decimal_text, split_once, split_text_once, str_eq, trim, trim_text, NumberError,
};

verus! {

/// The type of value that a query path leads to.
#[derive(Debug, Copy, Clone, PartialEq, Eq, Hash, Structural)]
pub enum ParameterType {
    Boolean,
    Number,
    OntologyTypeVersion,
    Text,
    Uuid,
    BaseUrl,
    VersionedUrl,
    TimeInterval,
    Timestamp,
    Object,
    Any,
}

impl ParameterType {
    /// The name under which the type is shown to a reader.
    pub open spec fn spec_name(self) -> Seq<char> {
        match self {
            ParameterType::Boolean => "boolean"@,
            ParameterType::Number => "number"@,
            ParameterType::OntologyTypeVersion => "ontology type version"@,
            ParameterType::Text => "text"@,
            ParameterType::Uuid => "UUID"@,
            ParameterType::BaseUrl => "base URL"@,
            ParameterType::VersionedUrl => "versioned URL"@,
            ParameterType::TimeInterval => "time interval"@,
            ParameterType::Timestamp => "timestamp"@,
            ParameterType::Object => "object"@,
            ParameterType::Any => "any"@,
        }
    }

    /// The name under which the type is shown to a reader.
    pub fn name(&self) -> (name: &'static str)
        ensures
            name@ == self.spec_name(),
    {
        match self {
            ParameterType::Boolean => "boolean",
            ParameterType::Number => "number",
            ParameterType::OntologyTypeVersion => "ontology type version",
            ParameterType::Text => "text",
            ParameterType::Uuid => "UUID",
            ParameterType::BaseUrl => "base URL",
            ParameterType::VersionedUrl => "versioned URL",
            ParameterType::TimeInterval => "time interval",
            ParameterType::Timestamp => "timestamp",
            ParameterType::Object => "object",
            ParameterType::Any => "any",
        }
    }
}

/// A path that a query can follow.
pub trait QueryPath {
    /// The type of value that the path leads to.
    spec fn spec_expected_type(&self) -> ParameterType;

    /// The type of value that the path leads to.
    fn expected_type(&self) -> (parameter_type: ParameterType)
        ensures
            parameter_type == self.spec_expected_type(),
    ;
}

/// The paths that every kind of ontology type offers.
pub trait OntologyQueryPath: Sized {
    /// The path to the internal identifier of the ontology type.
    fn ontology_id() -> Self;

    /// The path to the base URL.
    fn base_url() -> Self;

    /// The path to the versioned URL.
    fn versioned_url() -> Self;

    /// The path to the version.
    fn version() -> Self;

    /// The path to the transaction time.
    fn transaction_time() -> Self;

    /// The path to the account that created the record.
    fn record_created_by_id() -> Self;

    /// The path to the account that archived the record.
    fn record_archived_by_id() -> Self;

    /// The path to the schema.
    fn schema() -> Self;

    /// The path to the additional metadata.
    fn additional_metadata() -> Self;
}

/// One step of a path into a JSON value: into the field of an object, or to the position
/// of an array.
#[derive(Debug, PartialEq, Eq)]
pub enum PathToken {
    Field(String),
    Index(usize),
}

/// A step into a JSON value, as plain values.
pub enum PathTokenView {
    Field(Seq<char>),
    Index(usize),
}

impl View for PathToken {
    type V = PathTokenView;

    open spec fn view(&self) -> PathTokenView {
        match self {
            PathToken::Field(name) => PathTokenView::Field(name@),
            PathToken::Index(index) => PathTokenView::Index(*index),
        }
    }
}

/// What a list of path tokens holds, as plain values.
pub open spec fn tokens_view(tokens: Seq<PathToken>) -> Seq<PathTokenView> {
    Seq::new(tokens.len(), |i: int| tokens[i]@)
}

/// A path into a JSON value.
#[derive(Debug, PartialEq, Eq)]
pub struct JsonPath {
    path: Vec<PathToken>,
}

impl View for JsonPath {
    type V = Seq<PathTokenView>;

    closed spec fn view(&self) -> Seq<PathTokenView> {
        tokens_view(self.path@)
    }
}

/// How one step of a JSON path is written: a field as a dot and its name in double quotes,
/// a position as its number in square brackets.
pub open spec fn path_token_text(token: PathTokenView) -> Seq<char> {
    match token {
        PathTokenView::Field(name) => ".\""@ + name + "\""@,
        PathTokenView::Index(index) => "["@ + decimal(index as nat) + "]"@,
    }
}

/// How a JSON path is written: a dollar sign, and behind it its steps in their order.
pub open spec fn json_path_text(path: Seq<PathTokenView>) -> Seq<char>
    decreases path.len(),
{
    if path.len() == 0 {
        "$"@
    } else {
        json_path_text(path.drop_last()) + path_token_text(path.last())
    }
}

impl JsonPath {
    /// The path that takes the steps `path`, one after the other.
    pub fn from_path_tokens(path: Vec<PathToken>) -> (json_path: JsonPath)
        ensures
            json_path@ == tokens_view(path@),
    {
        JsonPath { path }
    }

    /// The path as it is written.
    pub fn render(&self) -> (text: String)
        ensures
            text@ == json_path_text(self@),
    {
        let mut text = String::from_str("$");
        let mut i: usize = 0;
        assert(tokens_view(self.path@).subrange(0, 0) =~= Seq::<PathTokenView>::empty());
        while i < self.path.len()
            invariant
                i <= self.path.len(),
                text@ == json_path_text(tokens_view(self.path@).subrange(0, i as int)),
            decreases self.path.len() - i,
        {
            let ghost upto = tokens_view(self.path@).subrange(0, i + 1);
            assert(upto.drop_last() =~= tokens_view(self.path@).subrange(0, i as int));
            assert(upto.last() == self.path@[i as int]@);
            let ghost before = text@;
            match &self.path[i] {
                PathToken::Field(name) => {
                    text.append(".\"");
                    text.append(name.as_str());
                    text.append("\"");
                    assert(text@ =~= before + (".\""@ + name@ + "\""@));
                },
                PathToken::Index(index) => {
                    text.append("[");
                    text.append(decimal_text(*index as u64).as_str());
                    text.append("]");
                    assert(text@ =~= before + ("["@ + decimal(*index as nat) + "]"@));
                },
            }
            i += 1;
        }
        assert(tokens_view(self.path@).subrange(0, self.path@.len() as int) =~= tokens_view(
            self.path@,
        ));
        text
    }
}

/// The parameters of a query token, as plain values: each key once, with its value.
pub type ParametersView = Seq<(Seq<char>, Seq<char>)>;

/// What a list of parameters holds, as plain values.
pub open spec fn parameters_view(parameters: Seq<(String, String)>) -> ParametersView {
    Seq::new(parameters.len(), |i: int| (parameters[i].0@, parameters[i].1@))
}

/// The position of the parameter `key`; the number of parameters where there is none.
pub open spec fn parameter_position(parameters: ParametersView, key: Seq<char>, from: int) -> int
    decreases parameters.len() - from,
{
    if from < 0 || from >= parameters.len() {
        parameters.len() as int
    } else if parameters[from].0 == key {
        from
    } else {
        parameter_position(parameters, key, from + 1)
    }
}

/// The parameters with `key` set to `value`: a key that is there already keeps its place
/// and gets the new value, a new key goes to the end.
pub open spec fn with_parameter(
    parameters: ParametersView,
    key: Seq<char>,
    value: Seq<char>,
) -> ParametersView {
    let position = parameter_position(parameters, key, 0);
    if position < parameters.len() {
        parameters.update(position, (key, value))
    } else {
        parameters.push((key, value))
    }
}

/// The value of the parameter `key`, if it is there.
pub open spec fn parameter_value(parameters: ParametersView, key: Seq<char>) -> Option<Seq<char>> {
    let position = parameter_position(parameters, key, 0);
    if position < parameters.len() {
        Some(parameters[position].1)
    } else {
        None
    }
}

/// The parameters without the first one under `key`.
pub open spec fn without_parameter(parameters: ParametersView, key: Seq<char>) -> ParametersView {
    let position = parameter_position(parameters, key, 0);
    if position < parameters.len() {
        parameters.remove(position)
    } else {
        parameters
    }
}

/// The position of the parameter `key` in `parameters`; their number where there is none.
pub fn find_parameter(parameters: &Vec<(String, String)>, key: &str) -> (position: usize)
    ensures
        position == parameter_position(parameters_view(parameters@), key@, 0),
        position <= parameters@.len(),
        position < parameters@.len() ==> parameters@[position as int].0@ == key@,
{
    let ghost view = parameters_view(parameters@);
    let mut i: usize = 0;
    while i < parameters.len()
        invariant
            i <= parameters.len(),
            view == parameters_view(parameters@),
            parameter_position(view, key@, 0) == parameter_position(view, key@, i as int),
        decreases parameters.len() - i,
    {
        assert(view[i as int].0 == parameters@[i as int].0@);
        if str_eq(parameters[i].0.as_str(), key) {
            return i;
        }
        i += 1;
    }
    i
}

/// Sets the parameter `key` to `value`.
pub fn set_parameter(parameters: &mut Vec<(String, String)>, key: &str, value: &str)
    ensures
        parameters_view(final(parameters)@) == with_parameter(
            parameters_view(old(parameters)@),
            key@,
            value@,
        ),
{
    let position = find_parameter(parameters, key);
    let entry = (String::from_str(key), String::from_str(value));
    if position < parameters.len() {
        parameters.remove(position);
        parameters.insert(position, entry);
    } else {
        parameters.push(entry);
    }
    assert(parameters_view(parameters@) =~= with_parameter(
        parameters_view(old(parameters)@),
        key@,
        value@,
    ));
}

/// Takes the parameter `key` out and hands back its value, if it is there.
pub fn take_parameter(parameters: &mut Vec<(String, String)>, key: &str) -> (value: Option<String>)
    ensures
        parameters_view(final(parameters)@) == without_parameter(
            parameters_view(old(parameters)@),
            key@,
        ),
        value is Some <==> parameter_value(parameters_view(old(parameters)@), key@) is Some,
        value matches Some(v) ==> Some(v@) == parameter_value(
            parameters_view(old(parameters)@),
            key@,
        ),
{
    let position = find_parameter(parameters, key);
    if position < parameters.len() {
        let entry = parameters.remove(position);
        assert(parameters_view(parameters@) =~= without_parameter(
            parameters_view(old(parameters)@),
            key@,
        ));
        assert(parameters_view(old(parameters)@)[position as int].1 == entry.1@);
        Some(entry.1)
    } else {
        None
    }
}

/// Why a sequence of tokens is not a query path.
#[derive(Debug, PartialEq, Eq)]
pub enum QueryPathError {
    /// A token opens a list of parameters and does not close it.
    MissingClosingParenthesis,
    /// A parameter is not of the form `key=value`.
    MissingParameterValue,
    /// A token is none of those that can stand at its place.
    UnknownVariant { variant: String, expected: &'static str },
    /// The sequence ends at `position`, where a token must follow.
    MissingToken { position: usize, expected: &'static str },
    /// A number stands at `position`, where only a token can stand.
    UnexpectedIndex { index: usize },
    /// The path is complete after `consumed` tokens, and the sequence holds `length`.
    TrailingTokens { length: usize, consumed: usize },
    /// The value of a parameter is not a number that fits in 32 bits.
    InvalidNumber(NumberError),
    /// A token has parameters that it does not take.
    UnknownParameters(Vec<String>),
}

/// Why a sequence of tokens is not a query path, as plain values.
pub enum QueryPathErrorView {
    MissingClosingParenthesis,
    MissingParameterValue,
    UnknownVariant { variant: Seq<char>, expected: Seq<char> },
    MissingToken { position: usize, expected: Seq<char> },
    UnexpectedIndex { index: usize },
    TrailingTokens { length: usize, consumed: usize },
    InvalidNumber(NumberError),
    UnknownParameters(Seq<Seq<char>>),
}

/// What a list of texts holds, as plain values.
pub open spec fn texts_view(texts: Seq<String>) -> Seq<Seq<char>> {
    Seq::new(texts.len(), |i: int| texts[i]@)
}

impl View for QueryPathError {
    type V = QueryPathErrorView;

    open spec fn view(&self) -> QueryPathErrorView {
        match self {
            QueryPathError::MissingClosingParenthesis => {
                QueryPathErrorView::MissingClosingParenthesis
            },
            QueryPathError::MissingParameterValue => QueryPathErrorView::MissingParameterValue,
            QueryPathError::UnknownVariant { variant, expected } => {
                QueryPathErrorView::UnknownVariant { variant: variant@, expected: expected@ }
            },
            QueryPathError::MissingToken { position, expected } => {
                QueryPathErrorView::MissingToken { position: *position, expected: expected@ }
            },
            QueryPathError::UnexpectedIndex { index } => QueryPathErrorView::UnexpectedIndex {
                index: *index,
            },
            QueryPathError::TrailingTokens { length, consumed } => {
                QueryPathErrorView::TrailingTokens { length: *length, consumed: *consumed }
            },
            QueryPathError::InvalidNumber(e) => QueryPathErrorView::InvalidNumber(*e),
            QueryPathError::UnknownParameters(keys) => QueryPathErrorView::UnknownParameters(
                texts_view(keys@),
            ),
        }
    }
}

/// A kind of token that a query path can be made of.
pub trait QueryToken: Sized {
    /// The token with the name `name`, if there is one.
    spec fn token_of(name: Seq<char>) -> Option<Self>;

    /// The names of all tokens of the kind, as they are shown where none of them was found.
    spec fn all_names() -> Seq<char>;

    /// The token with the name `name`, if there is one.
    fn from_name(name: &str) -> (token: Option<Self>)
        ensures
            token == Self::token_of(name@),
    ;

    /// The names of all tokens of the kind, as they are shown where none of them was found.
    fn expecting() -> (names: &'static str)
        ensures
            names@ == Self::all_names(),
    ;
}

/// The parameter that one piece of a list of parameters holds: none for a piece of white
/// space, the trimmed key and value for a piece of the form `key=value`.
pub open spec fn parameter_of(piece: Seq<char>) -> Result<
    Option<(Seq<char>, Seq<char>)>,
    QueryPathErrorView,
> {
    if trim(piece).len() == 0 {
        Ok(None)
    } else {
        match split_once(piece, '=') {
            None => Err(QueryPathErrorView::MissingParameterValue),
            Some((key, value)) => Ok(Some((trim(key), trim(value)))),
        }
    }
}

/// The parameters that `list` holds, added to `parameters`: the pieces between the commas
/// of `list`, from the first to the last, up to the first piece that is no parameter.
pub open spec fn parameters_of(parameters: ParametersView, list: Seq<char>) -> Result<
    ParametersView,
    QueryPathErrorView,
>
    decreases list.len(),
{
    match split_once(list, ',') {
        None => match parameter_of(list) {
            Err(e) => Err(e),
            Ok(None) => Ok(parameters),
            Ok(Some((key, value))) => Ok(with_parameter(parameters, key, value)),
        },
        Some((piece, rest)) => {
            proof {
                crate::text::lemma_index_from(list, ',', 0);
            }
            match parameter_of(piece) {
                Err(e) => Err(e),
                Ok(None) => parameters_of(parameters, rest),
                Ok(Some((key, value))) => parameters_of(
                    with_parameter(parameters, key, value),
                    rest,
                ),
            }
        },
    }
}

/// The name and the parameters of a token of the form `name`, `name()` or
/// `name(key=value, ..)`.
pub open spec fn query_token_parts(token: Seq<char>) -> Result<
    (Seq<char>, ParametersView),
    QueryPathErrorView,
> {
    match split_once(token, '(') {
        None => Ok((token, Seq::empty())),
        Some((name, rest)) => if rest.len() == 0 || rest.last() != ')' {
            Err(QueryPathErrorView::MissingClosingParenthesis)
        } else {
            match parameters_of(Seq::empty(), rest.drop_last()) {
                Err(e) => Err(e),
                Ok(parameters) => Ok((name, parameters)),
            }
        },
    }
}

/// The token of the kind `T` and the parameters that `token` holds. The parameters are
/// looked at first; the name of a token that is none of the kind comes back in the error.
pub open spec fn query_token<T: QueryToken>(token: Seq<char>) -> Result<
    (T, ParametersView),
    QueryPathErrorView,
> {
    match query_token_parts(token) {
        Err(e) => Err(e),
        Ok((name, parameters)) => match T::token_of(name) {
            None => Err(
                QueryPathErrorView::UnknownVariant { variant: name, expected: T::all_names() },
            ),
            Some(t) => Ok((t, parameters)),
        },
    }
}

/// What a parsed token holds, as plain values.
pub open spec fn query_token_view<T>(
    res: Result<(T, Vec<(String, String)>), QueryPathError>,
) -> Result<(T, ParametersView), QueryPathErrorView> {
    match res {
        Ok((token, parameters)) => Ok((token, parameters_view(parameters@))),
        Err(e) => Err(e@),
    }
}

/// What a list of parameters or a refusal holds, as plain values.
pub open spec fn parameters_result_view(
    res: Result<Vec<(String, String)>, QueryPathError>,
) -> Result<ParametersView, QueryPathErrorView> {
    match res {
        Ok(parameters) => Ok(parameters_view(parameters@)),
        Err(e) => Err(e@),
    }
}

/// Adds the parameter that `piece` holds, if it holds one, to `parameters`.
pub fn parse_parameter(parameters: Vec<(String, String)>, piece: &str) -> (res: Result<
    Vec<(String, String)>,
    QueryPathError,
>)
    ensures
        parameters_result_view(res) == match parameter_of(piece@) {
            Err(e) => Err::<ParametersView, QueryPathErrorView>(e),
            Ok(None) => Ok(parameters_view(parameters@)),
            Ok(Some((key, value))) => Ok(
                with_parameter(parameters_view(parameters@), key, value),
            ),
        },
{
    if trim_text(piece).unicode_len() == 0 {
        return Ok(parameters);
    }
    match split_text_once(piece, '=') {
        None => Err(QueryPathError::MissingParameterValue),
        Some((key, value)) => {
            let mut parameters = parameters;
            set_parameter(&mut parameters, trim_text(key), trim_text(value));
            Ok(parameters)
        },
    }
}

/// Adds the parameters that `list` holds to `parameters`, up to the first piece that is no
/// parameter.
pub fn parse_parameters(parameters: Vec<(String, String)>, list: &str) -> (res: Result<
    Vec<(String, String)>,
    QueryPathError,
>)
    ensures
        parameters_result_view(res) == parameters_of(parameters_view(parameters@), list@),
    decreases list@.len(),
{
    match split_text_once(list, ',') {
        None => parse_parameter(parameters, list),
        Some((piece, rest)) => {
            proof {
                crate::text::lemma_index_from(list@, ',', 0);
            }
            match parse_parameter(parameters, piece) {
                Err(e) => Err(e),
                Ok(parameters) => parse_parameters(parameters, rest),
            }
        },
    }
}

/// Parses a query token of the form `token(key=value)`. White space around keys and values
/// is ignored, and a token can have several parameters, separated by commas.
///
/// The token is refused where it opens a list of parameters and does not close it, where a
/// parameter is not of the form `key=value`, and where its name is none of the kind `T`.
pub fn parse_query_token<T: QueryToken>(token: &str) -> (res: Result<
    (T, Vec<(String, String)>),
    QueryPathError,
>)
    ensures
        query_token_view(res) == query_token::<T>(token@),
{
    let parameters: Vec<(String, String)> = Vec::new();
    assert(parameters_view(parameters@) =~= Seq::empty());
    let (name, parameters) = match split_text_once(token, '(') {
        None => (token, parameters),
        Some((name, rest)) => {
            let n = rest.unicode_len();
            if n == 0 || rest.get_char(n - 1) != ')' {
                return Err(QueryPathError::MissingClosingParenthesis);
            }
            let list = rest.substring_char(0, n - 1);
            assert(list@ =~= rest@.drop_last());
            match parse_parameters(parameters, list) {
                Err(e) => {
                    return Err(e);
                },
                Ok(parameters) => (name, parameters),
            }
        },
    };
    match T::from_name(name) {
        Some(t) => Ok((t, parameters)),
        None => Err(
            QueryPathError::UnknownVariant {
                variant: String::from_str(name),
                expected: T::expecting(),
            },
        ),
    }
}

/// The texts `texts`, one after the other, with `separator` between each two.
pub open spec fn joined(texts: Seq<Seq<char>>, separator: Seq<char>) -> Seq<char>
    decreases texts.len(),
{
    if texts.len() == 0 {
        Seq::empty()
    } else if texts.len() == 1 {
        texts[0]
    } else {
        joined(texts.drop_last(), separator) + separator + texts.last()
    }
}

/// The texts `texts`, one after the other, with `separator` between each two.
pub fn join(texts: &Vec<String>, separator: &str) -> (text: String)
    ensures
        text@ == joined(texts_view(texts@), separator@),
{
    let mut text = String::new();
    let mut i: usize = 0;
    assert(texts_view(texts@).subrange(0, 0) =~= Seq::<Seq<char>>::empty());
    while i < texts.len()
        invariant
            i <= texts.len(),
            text@ == joined(texts_view(texts@).subrange(0, i as int), separator@),
        decreases texts.len() - i,
    {
        let ghost upto = texts_view(texts@).subrange(0, i + 1);
        assert(upto.drop_last() =~= texts_view(texts@).subrange(0, i as int));
        assert(upto.last() == texts@[i as int]@);
        let ghost before = text@;
        if i > 0 {
            text.append(separator);
        }
        text.append(texts[i].as_str());
        assert(text@ =~= joined(upto, separator@)) by {
            if i == 0 {
                assert(before =~= Seq::<char>::empty());
                assert(upto[0] == texts@[0]@);
            }
        }
        i += 1;
    }
    assert(texts_view(texts@).subrange(0, texts@.len() as int) =~= texts_view(texts@));
    text
}

impl QueryPathErrorView {
    /// What is wrong with the sequence of tokens, in words.
    pub open spec fn message(self) -> Seq<char> {
        match self {
            QueryPathErrorView::MissingClosingParenthesis => "missing closing parenthesis"@,
            QueryPathErrorView::MissingParameterValue => {
                "missing parameter value, expected `key=value`"@
            },
            QueryPathErrorView::UnknownVariant { variant, expected } => "unknown variant `"@
                + variant + "`, expected "@ + expected,
            QueryPathErrorView::MissingToken { position, expected } => "invalid length "@
                + decimal(position as nat) + ", expected "@ + expected,
            QueryPathErrorView::UnexpectedIndex { index } => "invalid type: integer `"@ + decimal(
                index as nat,
            ) + "`, expected a string"@,
            QueryPathErrorView::TrailingTokens { length, consumed } => "invalid length "@
                + decimal(length as nat) + ", expected "@ + if consumed == 1 {
                "1 element in sequence"@
            } else {
                decimal(consumed as nat) + " elements in sequence"@
            },
            QueryPathErrorView::InvalidNumber(e) => e.spec_message(),
            QueryPathErrorView::UnknownParameters(keys) => "unknown parameters: "@ + joined(
                keys,
                ", "@,
            ),
        }
    }
}

impl QueryPathError {
    /// What is wrong with the sequence of tokens, in words.
    pub fn message(&self) -> (text: String)
        ensures
            text@ == self@.message(),
    {
        match self {
            QueryPathError::MissingClosingParenthesis => String::from_str(
                "missing closing parenthesis",
            ),
            QueryPathError::MissingParameterValue => String::from_str(
                "missing parameter value, expected `key=value`",
            ),
            QueryPathError::UnknownVariant { variant, expected } => {
                let mut text = String::from_str("unknown variant `");
                text.append(variant.as_str());
                text.append("`, expected ");
                text.append(expected);
                text
            },
            QueryPathError::MissingToken { position, expected } => {
                let mut text = String::from_str("invalid length ");
                text.append(decimal_text(*position as u64).as_str());
                text.append(", expected ");
                text.append(expected);
                text
            },
            QueryPathError::UnexpectedIndex { index } => {
                let mut text = String::from_str("invalid type: integer `");
                text.append(decimal_text(*index as u64).as_str());
                text.append("`, expected a string");
                text
            },
            QueryPathError::TrailingTokens { length, consumed } => {
                let mut text = String::from_str("invalid length ");
                text.append(decimal_text(*length as u64).as_str());
                text.append(", expected ");
                if *consumed == 1 {
                    text.append("1 element in sequence");
                } else {
                    text.append(decimal_text(*consumed as u64).as_str());
                    text.append(" elements in sequence");
                }
                assert(text@ =~= self@.message());
                text
            },
            QueryPathError::InvalidNumber(e) => String::from_str(e.message()),
            QueryPathError::UnknownParameters(keys) => {
                let mut text = String::from_str("unknown parameters: ");
                text.append(join(keys, ", ").as_str());
                text
            },
        }
    }
}

} // verus!
