//! Canonical resource identifiers: `<scheme>:<kind>:<id>` and nothing else.

use vstd::prelude::*;
use vstd::string::*;

use crate::media::{MediaKind, media_kind_names_round_trip};
use crate::text::{
    ascii_alphanumeric, ascii_digit, ascii_lower, chars_of, concat3, concat5, first_at,
    is_ascii_alphanumeric, is_ascii_digit, is_ascii_lower, lemma_first_at, lemma_first_at_bounds,
    lemma_pieces_rejoin, lemma_pieces_single, opt_text, opt_view, pieces, res_view, same_text,
    split_text, texts,
};

verus! {

// ---------------------------------------------------------------------------
// Schemes
// ---------------------------------------------------------------------------

/// A scheme starts with a lowercase ASCII letter and goes on in lowercase
/// ASCII letters, digits and hyphens.
pub open spec fn is_scheme(s: Seq<char>) -> bool {
    &&& s.len() > 0
    &&& is_ascii_lower(s[0])
    &&& forall|i: int| 1 <= i < s.len() ==> is_scheme_char(#[trigger] s[i])
}

pub open spec fn is_scheme_char(c: char) -> bool {
    is_ascii_lower(c) || is_ascii_digit(c) || c == '-'
}

/// Whether a text follows the scheme grammar.
pub fn scheme_is_valid(value: &str) -> (r: bool)
    ensures
        r == is_scheme(value@),
{
    let v = chars_of(value);
    if v.len() == 0 || !ascii_lower(v[0]) {
        return false;
    }
    let mut i: usize = 1;
    while i < v.len()
        invariant
            1 <= i <= v@.len(),
            v@ == value@,
            forall|k: int| 1 <= k < i ==> is_scheme_char(#[trigger] v@[k]),
        decreases v@.len() - i,
    {
        if !(ascii_lower(v[i]) || ascii_digit(v[i]) || v[i] == '-') {
            return false;
        }
        i = i + 1;
    }
    true
}

/// The resource namespace of a provider.
#[derive(Debug, PartialEq, Eq, Hash, PartialOrd, Ord)]
pub struct UriScheme {
    value: String,
}

impl View for UriScheme {
    type V = Seq<char>;

    closed spec fn view(&self) -> Seq<char> {
        self.value@
    }
}

impl Clone for UriScheme {
    fn clone(&self) -> (r: Self)
        ensures
            r@ == self@,
    {
        proof {
            use_type_invariant(self);
        }
        UriScheme { value: self.value.clone() }
    }
}

impl UriScheme {
    #[verifier::type_invariant]
    spec fn valid(&self) -> bool {
        is_scheme(self.value@)
    }

    /// The built-in `spotify` namespace.
    pub fn spotify() -> (r: Self)
        ensures
            r@ == "spotify"@,
    {
        proof {
            reveal_strlit("spotify");
        }
        UriScheme { value: "spotify".to_owned() }
    }

    /// The built-in `fake` namespace.
    pub fn fake() -> (r: Self)
        ensures
            r@ == "fake"@,
    {
        proof {
            reveal_strlit("fake");
        }
        UriScheme { value: "fake".to_owned() }
    }

    /// The scheme of that text, where it follows the grammar.
    pub fn new(value: &str) -> (r: Result<Self, UriSchemeError>)
        ensures
            match r {
                Ok(scheme) => is_scheme(value@) && scheme@ == value@,
                Err(error) => !is_scheme(value@) && error.value@ == value@,
            },
    {
        if scheme_is_valid(value) {
            Ok(UriScheme { value: value.to_owned() })
        } else {
            Err(UriSchemeError { value: value.to_owned() })
        }
    }

    pub fn label(&self) -> (r: &str)
        ensures
            r@ == self@,
            is_scheme(self@),
    {
        proof {
            use_type_invariant(self);
        }
        self.value.as_str()
    }

    /// Whether two schemes are the same namespace.
    pub fn same(&self, other: &UriScheme) -> (r: bool)
        ensures
            r == (self@ == other@),
    {
        same_text(self.value.as_str(), other.value.as_str())
    }
}

impl std::str::FromStr for UriScheme {
    type Err = UriSchemeError;

    fn from_str(value: &str) -> (r: Result<Self, Self::Err>)
        ensures
            match r {
                Ok(scheme) => is_scheme(value@) && scheme@ == value@,
                Err(error) => !is_scheme(value@) && error.value@ == value@,
            },
    {
        UriScheme::new(value)
    }
}

/// A text that is no scheme.
#[derive(Clone, Debug, PartialEq, Eq)]
pub struct UriSchemeError {
    pub value: String,
}

impl UriSchemeError {
    pub fn message(&self) -> (r: String)
        ensures
            r@ == "invalid URI scheme `"@ + self.value@
                + "`; expected lowercase ASCII letters, digits, or hyphens"@,
    {
        concat3(
            "invalid URI scheme `",
            self.value.as_str(),
            "`; expected lowercase ASCII letters, digits, or hyphens",
        )
    }
}

// ---------------------------------------------------------------------------
// Errors
// ---------------------------------------------------------------------------

/// Why a text is no canonical resource identifier.
#[derive(Clone, Debug, PartialEq, Eq)]
pub enum UriError {
    InvalidShape,
    UnsupportedScheme(String),
    UnsupportedKind(String),
    UnexpectedKind { expected: MediaKind, actual: MediaKind },
    EmptyId,
    InvalidId(String),
}

/// What a `UriError` says, as plain values.
pub enum UriErrorModel {
    InvalidShape,
    UnsupportedScheme(Seq<char>),
    UnsupportedKind(Seq<char>),
    UnexpectedKind { expected: MediaKind, actual: MediaKind },
    EmptyId,
    InvalidId(Seq<char>),
}

impl View for UriError {
    type V = UriErrorModel;

    open spec fn view(&self) -> UriErrorModel {
        match *self {
            UriError::InvalidShape => UriErrorModel::InvalidShape,
            UriError::UnsupportedScheme(s) => UriErrorModel::UnsupportedScheme(s@),
            UriError::UnsupportedKind(s) => UriErrorModel::UnsupportedKind(s@),
            UriError::UnexpectedKind { expected, actual } => UriErrorModel::UnexpectedKind {
                expected,
                actual,
            },
            UriError::EmptyId => UriErrorModel::EmptyId,
            UriError::InvalidId(s) => UriErrorModel::InvalidId(s@),
        }
    }
}

impl UriErrorModel {
    /// The sentence that an error is shown as.
    pub open spec fn sentence(self) -> Seq<char> {
        match self {
            UriErrorModel::InvalidShape
                => "resource URI must have the form <scheme>:<kind>:<id>"@,
            UriErrorModel::UnsupportedScheme(s) => "unsupported resource URI scheme `"@ + s + "`"@,
            UriErrorModel::UnsupportedKind(s) => "unsupported resource kind `"@ + s + "`"@,
            UriErrorModel::UnexpectedKind { expected, actual } => "expected resource kind `"@
                + expected.name() + "`, got `"@ + actual.name() + "`"@,
            UriErrorModel::EmptyId => "resource URI id must not be empty"@,
            UriErrorModel::InvalidId(s) => "resource URI id `"@ + s + "` is not canonical"@,
        }
    }
}

impl UriError {
    /// The sentence that the error is shown as.
    pub fn message(&self) -> (r: String)
        ensures
            r@ == self@.sentence(),
    {
        match self {
            UriError::InvalidShape
                => "resource URI must have the form <scheme>:<kind>:<id>".to_owned(),
            UriError::UnsupportedScheme(s) => concat3(
                "unsupported resource URI scheme `",
                s.as_str(),
                "`",
            ),
            UriError::UnsupportedKind(s) => concat3("unsupported resource kind `", s.as_str(), "`"),
            UriError::UnexpectedKind { expected, actual } => concat5(
                "expected resource kind `",
                expected.label(),
                "`, got `",
                actual.label(),
                "`",
            ),
            UriError::EmptyId => "resource URI id must not be empty".to_owned(),
            UriError::InvalidId(s) => concat3("resource URI id `", s.as_str(), "` is not canonical"),
        }
    }
}

// ---------------------------------------------------------------------------
// Resource identifiers
// ---------------------------------------------------------------------------

/// A resource identifier as plain values.
pub struct UriModel {
    pub scheme: Seq<char>,
    pub kind: MediaKind,
    pub id: Seq<char>,
}

pub open spec fn is_id_char(c: char) -> bool {
    is_ascii_alphanumeric(c) || c == '-' || c == '.' || c == '_' || c == '~'
}

/// A bare id is not empty and holds only unreserved characters.
pub open spec fn is_bare_id(s: Seq<char>) -> bool {
    &&& s.len() > 0
    &&& forall|i: int| 0 <= i < s.len() ==> is_id_char(#[trigger] s[i])
}

impl UriModel {
    /// What every resource identifier satisfies.
    pub open spec fn valid(self) -> bool {
        is_scheme(self.scheme) && is_bare_id(self.id)
    }

    /// The canonical text of the identifier.
    pub open spec fn text(self) -> Seq<char> {
        self.scheme + seq![':'] + self.kind.name() + seq![':'] + self.id
    }
}

/// The identifier with these parts, or what is wrong with the id.
pub open spec fn built_uri(scheme: Seq<char>, kind: MediaKind, id: Seq<char>) -> Result<
    UriModel,
    UriErrorModel,
> {
    if id.len() == 0 {
        Err(UriErrorModel::EmptyId)
    } else if !is_bare_id(id) {
        Err(UriErrorModel::InvalidId(id))
    } else {
        Ok(UriModel { scheme, kind, id })
    }
}

/// The identifier that a text stands for, or the first thing wrong with it:
/// its shape, its scheme, its kind, its id.
pub open spec fn parsed_uri(s: Seq<char>) -> Result<UriModel, UriErrorModel> {
    let parts = pieces(s, ':');
    if parts.len() != 3 {
        Err(UriErrorModel::InvalidShape)
    } else if !is_scheme(parts[0]) {
        Err(UriErrorModel::UnsupportedScheme(parts[0]))
    } else {
        match MediaKind::named(parts[1]) {
            None => Err(UriErrorModel::UnsupportedKind(parts[1])),
            Some(kind) => built_uri(parts[0], kind, parts[2]),
        }
    }
}

/// A canonical Spotify identifier of `kind`, or a bare Spotify id of it.
pub open spec fn spotify_uri_or_id(kind: MediaKind, s: Seq<char>) -> Result<
    UriModel,
    UriErrorModel,
> {
    match parsed_uri(s) {
        Ok(uri) => if uri.scheme != "spotify"@ {
            Err(UriErrorModel::UnsupportedScheme(uri.scheme))
        } else if uri.kind == kind {
            Ok(uri)
        } else {
            Err(UriErrorModel::UnexpectedKind { expected: kind, actual: uri.kind })
        },
        Err(UriErrorModel::InvalidShape) => built_uri("spotify"@, kind, s),
        Err(error) => Err(error),
    }
}

/// Whether a text is a bare id; the error says what is wrong with it.
fn validate_bare_id(id: &str) -> (r: Result<(), UriError>)
    ensures
        match r {
            Ok(_) => is_bare_id(id@),
            Err(UriError::EmptyId) => id@.len() == 0,
            Err(UriError::InvalidId(s)) => id@.len() > 0 && !is_bare_id(id@) && s@ == id@,
            Err(_) => false,
        },
{
    let v = chars_of(id);
    if v.len() == 0 {
        return Err(UriError::EmptyId);
    }
    let mut i: usize = 0;
    while i < v.len()
        invariant
            i <= v@.len(),
            v@ == id@,
            v@.len() > 0,
            forall|k: int| 0 <= k < i ==> is_id_char(#[trigger] v@[k]),
        decreases v@.len() - i,
    {
        let c = v[i];
        if !(ascii_alphanumeric(c) || c == '-' || c == '.' || c == '_' || c == '~') {
            return Err(UriError::InvalidId(id.to_owned()));
        }
        i = i + 1;
    }
    Ok(())
}

/// A canonical resource identifier.
#[derive(Debug, PartialEq, Eq, Hash)]
pub struct ResourceUri {
    scheme: UriScheme,
    kind: MediaKind,
    id: String,
}

impl View for ResourceUri {
    type V = UriModel;

    closed spec fn view(&self) -> UriModel {
        UriModel { scheme: self.scheme@, kind: self.kind, id: self.id@ }
    }
}

impl Clone for ResourceUri {
    fn clone(&self) -> (r: Self)
        ensures
            r@ == self@,
    {
        proof {
            use_type_invariant(self);
        }
        ResourceUri { scheme: self.scheme.clone(), kind: self.kind, id: self.id.clone() }
    }
}

impl ResourceUri {
    #[verifier::type_invariant]
    spec fn valid(&self) -> bool {
        is_scheme(self.scheme@) && is_bare_id(self.id@)
    }

    /// The identifier with these parts.
    pub fn new(scheme: UriScheme, kind: MediaKind, id: &str) -> (r: Result<Self, UriError>)
        ensures
            res_view(r) == built_uri(scheme@, kind, id@),
            r is Ok ==> r->Ok_0@.valid(),
    {
        match validate_bare_id(id) {
            Ok(_) => Ok(ResourceUri::of_valid_id(scheme, kind, id)),
            Err(error) => Err(error),
        }
    }

    /// The identifier with these parts, of which the id is known to be valid.
    pub(crate) fn of_valid_id(scheme: UriScheme, kind: MediaKind, id: &str) -> (r: Self)
        requires
            is_bare_id(id@),
        ensures
            r@ == (UriModel { scheme: scheme@, kind, id: id@ }),
            r@.valid(),
    {
        proof {
            use_type_invariant(&scheme);
        }
        ResourceUri { scheme, kind, id: id.to_owned() }
    }

    /// The Spotify identifier of this kind and id.
    pub fn spotify(kind: MediaKind, id: &str) -> (r: Result<Self, UriError>)
        ensures
            res_view(r) == built_uri("spotify"@, kind, id@),
            r is Ok ==> r->Ok_0@.valid(),
    {
        ResourceUri::new(UriScheme::spotify(), kind, id)
    }

    /// Accepts a canonical Spotify identifier of `kind` or a bare Spotify id.
    pub fn spotify_from_uri_or_id(kind: MediaKind, input: &str) -> (r: Result<Self, UriError>)
        ensures
            res_view(r) == spotify_uri_or_id(kind, input@),
            r is Ok ==> r->Ok_0@.valid(),
    {
        match ResourceUri::parse(input) {
            Ok(resource) => {
                if !same_text(resource.scheme().label(), "spotify") {
                    Err(UriError::UnsupportedScheme(resource.scheme().label().to_owned()))
                } else if resource.kind() == kind {
                    Ok(resource)
                } else {
                    Err(UriError::UnexpectedKind { expected: kind, actual: resource.kind() })
                }
            },
            Err(UriError::InvalidShape) => ResourceUri::spotify(kind, input),
            Err(error) => Err(error),
        }
    }

    /// The identifier that a canonical text stands for.
    pub fn parse(input: &str) -> (r: Result<Self, UriError>)
        ensures
            res_view(r) == parsed_uri(input@),
            r is Ok ==> r->Ok_0@.valid() && r->Ok_0@.text() == input@,
    {
        let parts = split_text(input, ':');
        if parts.len() != 3 {
            return Err(UriError::InvalidShape);
        }
        assert(texts(parts@)[0] == parts@[0]@);
        assert(texts(parts@)[1] == parts@[1]@);
        assert(texts(parts@)[2] == parts@[2]@);
        let scheme = match UriScheme::new(parts[0].as_str()) {
            Ok(scheme) => scheme,
            Err(error) => return Err(UriError::UnsupportedScheme(error.value)),
        };
        let kind = match MediaKind::from_label(parts[1].as_str()) {
            Ok(kind) => kind,
            Err(error) => return Err(UriError::UnsupportedKind(error.value)),
        };
        let r = ResourceUri::new(scheme, kind, parts[2].as_str());
        proof {
            if r is Ok {
                parsed_text_is_canonical(input@);
            }
        }
        r
    }

    pub fn scheme(&self) -> (r: &UriScheme)
        ensures
            r@ == self@.scheme,
    {
        &self.scheme
    }

    pub fn kind(&self) -> (r: MediaKind)
        ensures
            r == self@.kind,
    {
        self.kind
    }

    pub fn bare_id(&self) -> (r: &str)
        ensures
            r@ == self@.id,
            is_bare_id(r@),
    {
        proof {
            use_type_invariant(self);
        }
        self.id.as_str()
    }

    /// The canonical text, which parses back to this identifier.
    pub fn as_uri(&self) -> (r: String)
        ensures
            r@ == self@.text(),
            self@.valid(),
            parsed_uri(r@) == Ok::<UriModel, UriErrorModel>(self@),
    {
        proof {
            use_type_invariant(self);
            canonical_text_parses_back(self@);
        }
        let mut out = self.scheme.label().to_owned();
        out.push(':');
        out.append(self.kind.label());
        out.push(':');
        out.append(self.id.as_str());
        assert(out@ =~= self@.text());
        out
    }

    /// Whether two identifiers name the same resource.
    pub fn same(&self, other: &ResourceUri) -> (r: bool)
        ensures
            r == (self@ == other@),
    {
        self.scheme.same(&other.scheme) && self.kind == other.kind && same_text(
            self.id.as_str(),
            other.id.as_str(),
        )
    }
}

impl std::str::FromStr for ResourceUri {
    type Err = UriError;

    fn from_str(input: &str) -> (r: Result<Self, Self::Err>)
        ensures
            res_view(r) == parsed_uri(input@),
            r is Ok ==> r->Ok_0@.valid() && r->Ok_0@.text() == input@,
    {
        ResourceUri::parse(input)
    }
}

// ---------------------------------------------------------------------------
// Laws
// ---------------------------------------------------------------------------

proof fn lemma_pieces_of_joined(a: Seq<char>, b: Seq<char>, c: Seq<char>)
    requires
        forall|i: int| 0 <= i < a.len() ==> #[trigger] a[i] != ':',
        forall|i: int| 0 <= i < b.len() ==> #[trigger] b[i] != ':',
        forall|i: int| 0 <= i < c.len() ==> #[trigger] c[i] != ':',
    ensures
        pieces(a + seq![':'] + b + seq![':'] + c, ':') == seq![a, b, c],
{
    let s = a + seq![':'] + b + seq![':'] + c;
    let t = b + seq![':'] + c;
    lemma_first_at(s, ':', a.len() as int);
    assert(s.take(a.len() as int) =~= a);
    assert(s.skip(a.len() as int + 1) =~= t);
    lemma_first_at(t, ':', b.len() as int);
    assert(t.take(b.len() as int) =~= b);
    assert(t.skip(b.len() as int + 1) =~= c);
    lemma_first_at(c, ':', c.len() as int);
    assert(pieces(c, ':') =~= seq![c]);
    assert(pieces(t, ':') =~= seq![b] + pieces(c, ':'));
    assert(pieces(s, ':') =~= seq![a] + pieces(t, ':'));
    assert(pieces(s, ':') =~= seq![a, b, c]);
}

proof fn lemma_names_hold_no_colon(kind: MediaKind)
    ensures
        forall|i: int| 0 <= i < kind.name().len() ==> #[trigger] kind.name()[i] != ':',
{
    reveal_strlit("track");
    reveal_strlit("episode");
    reveal_strlit("show");
    reveal_strlit("album");
    reveal_strlit("artist");
    reveal_strlit("playlist");
}

/// The canonical text of a valid identifier parses back to that identifier.
pub proof fn canonical_text_parses_back(uri: UriModel)
    requires
        uri.valid(),
    ensures
        parsed_uri(uri.text()) == Ok::<UriModel, UriErrorModel>(uri),
{
    lemma_names_hold_no_colon(uri.kind);
    assert forall|i: int| 0 <= i < uri.scheme.len() implies #[trigger] uri.scheme[i] != ':' by {
        if i > 0 {
            assert(is_scheme_char(uri.scheme[i]));
        }
    }
    assert forall|i: int| 0 <= i < uri.id.len() implies #[trigger] uri.id[i] != ':' by {
        assert(is_id_char(uri.id[i]));
    }
    lemma_pieces_of_joined(uri.scheme, uri.kind.name(), uri.id);
    media_kind_names_round_trip(uri.kind, uri.kind.name());
}

/// A text that parses is the canonical text of what it parses to.
pub proof fn parsed_text_is_canonical(s: Seq<char>)
    ensures
        parsed_uri(s) matches Ok(uri) ==> uri.valid() && uri.text() == s,
{
    let parts = pieces(s, ':');
    if parsed_uri(s) is Ok {
        lemma_three_pieces(s);
        media_kind_names_round_trip(MediaKind::named(parts[1])->0, parts[1]);
        assert((parsed_uri(s)->Ok_0).text() =~= s);
    }
}

proof fn lemma_three_pieces(s: Seq<char>)
    requires
        pieces(s, ':').len() == 3,
    ensures
        s == pieces(s, ':')[0] + seq![':'] + pieces(s, ':')[1] + seq![':'] + pieces(s, ':')[2],
{
    let i = first_at(s, ':');
    lemma_first_at_bounds(s, ':');
    let t = s.skip(i + 1);
    lemma_pieces_nonempty(t);
    let j = first_at(t, ':');
    lemma_first_at_bounds(t, ':');
    let u = t.skip(j + 1);
    assert(pieces(s, ':') == seq![s.take(i)] + pieces(t, ':'));
    assert(pieces(t, ':').len() == 2);
    assert(j < t.len());
    assert(pieces(t, ':') == seq![t.take(j)] + pieces(u, ':'));
    let k = first_at(u, ':');
    lemma_first_at_bounds(u, ':');
    if k < u.len() {
        lemma_pieces_nonempty(u.skip(k + 1));
    }
    assert(pieces(u, ':') =~= seq![u]);
    assert(s =~= s.take(i) + seq![':'] + t);
    assert(t =~= t.take(j) + seq![':'] + u);
    assert(pieces(s, ':')[1] == t.take(j));
    assert(pieces(s, ':')[2] == u);
    assert(s =~= s.take(i) + seq![':'] + t.take(j) + seq![':'] + u);
}

proof fn lemma_pieces_nonempty(s: Seq<char>)
    ensures
        pieces(s, ':').len() >= 1,
{
}

/// Two identifiers with the same canonical text are the same identifier.
pub proof fn canonical_text_is_injective(a: UriModel, b: UriModel)
    requires
        a.valid(),
        b.valid(),
        a.text() == b.text(),
    ensures
        a == b,
{
    canonical_text_parses_back(a);
    canonical_text_parses_back(b);
}

// ---------------------------------------------------------------------------
// Typed Spotify ids
// ---------------------------------------------------------------------------

/// The id that a canonical Spotify identifier of `kind` holds.
pub open spec fn spotify_id_in(kind: MediaKind, s: Seq<char>) -> Option<Seq<char>> {
    match parsed_uri(s) {
        Ok(uri) => if uri.scheme == "spotify"@ && uri.kind == kind {
            Some(uri.id)
        } else {
            None
        },
        Err(_) => None,
    }
}

/// The text `spotify:<kind>:<id>`, whatever the id holds.
pub open spec fn spotify_text(kind: MediaKind, id: Seq<char>) -> Seq<char> {
    (UriModel { scheme: "spotify"@, kind, id }).text()
}

fn spotify_id_of(kind: MediaKind, uri: &str) -> (r: Option<String>)
    ensures
        opt_text(r) == spotify_id_in(kind, uri@),
{
    match ResourceUri::parse(uri) {
        Ok(parsed) => {
            if same_text(parsed.scheme().label(), "spotify") && parsed.kind() == kind {
                Some(parsed.bare_id().to_owned())
            } else {
                None
            }
        },
        Err(_) => None,
    }
}

fn spotify_text_of(kind: MediaKind, id: &str) -> (r: String)
    ensures
        r@ == spotify_text(kind, id@),
{
    let mut out = "spotify".to_owned();
    out.push(':');
    out.append(kind.label());
    out.push(':');
    out.append(id);
    assert(out@ =~= spotify_text(kind, id@));
    out
}

/// A typed id is found again in its identifier exactly when it is a bare id.
pub proof fn spotify_text_holds_its_id(kind: MediaKind, id: Seq<char>)
    ensures
        is_bare_id(id) ==> spotify_id_in(kind, spotify_text(kind, id)) == Some(id),
        spotify_id_in(kind, spotify_text(kind, id)) == Some(id) ==> is_bare_id(id),
{
    reveal_strlit("spotify");
    if is_bare_id(id) {
        canonical_text_parses_back(UriModel { scheme: "spotify"@, kind, id });
    }
    parsed_text_is_canonical(spotify_text(kind, id));
}

/// The Spotify id of a track.
#[derive(Clone, Debug, PartialEq, Eq, Hash, PartialOrd, Ord)]
pub struct TrackId {
    id: String,
}

impl View for TrackId {
    type V = Seq<char>;

    closed spec fn view(&self) -> Seq<char> {
        self.id@
    }
}

impl TrackId {
    /// Wraps a bare id as it stands; `from_uri` is the way in for a text that
    /// comes from outside.
    pub fn new(id: &str) -> (r: Self)
        ensures
            r@ == id@,
    {
        TrackId { id: id.to_owned() }
    }

    /// The id in a canonical Spotify identifier of this kind.
    pub fn from_uri(uri: &str) -> (r: Option<Self>)
        ensures
            opt_view(r) == spotify_id_in(MediaKind::Track, uri@),
    {
        match spotify_id_of(MediaKind::Track, uri) {
            Some(id) => Some(TrackId { id }),
            None => None,
        }
    }

    pub fn as_str(&self) -> (r: &str)
        ensures
            r@ == self@,
    {
        self.id.as_str()
    }

    /// The full identifier.
    pub fn to_uri(&self) -> (r: String)
        ensures
            r@ == spotify_text(MediaKind::Track, self@),
    {
        spotify_text_of(MediaKind::Track, self.id.as_str())
    }
}

/// The Spotify id of an artist.
#[derive(Clone, Debug, PartialEq, Eq, Hash, PartialOrd, Ord)]
pub struct ArtistId {
    id: String,
}

impl View for ArtistId {
    type V = Seq<char>;

    closed spec fn view(&self) -> Seq<char> {
        self.id@
    }
}

impl ArtistId {
    /// Wraps a bare id as it stands; `from_uri` is the way in for a text that
    /// comes from outside.
    pub fn new(id: &str) -> (r: Self)
        ensures
            r@ == id@,
    {
        ArtistId { id: id.to_owned() }
    }

    /// The id in a canonical Spotify identifier of this kind.
    pub fn from_uri(uri: &str) -> (r: Option<Self>)
        ensures
            opt_view(r) == spotify_id_in(MediaKind::Artist, uri@),
    {
        match spotify_id_of(MediaKind::Artist, uri) {
            Some(id) => Some(ArtistId { id }),
            None => None,
        }
    }

    pub fn as_str(&self) -> (r: &str)
        ensures
            r@ == self@,
    {
        self.id.as_str()
    }

    /// The full identifier.
    pub fn to_uri(&self) -> (r: String)
        ensures
            r@ == spotify_text(MediaKind::Artist, self@),
    {
        spotify_text_of(MediaKind::Artist, self.id.as_str())
    }
}

/// The Spotify id of an album.
#[derive(Clone, Debug, PartialEq, Eq, Hash, PartialOrd, Ord)]
pub struct AlbumId {
    id: String,
}

impl View for AlbumId {
    type V = Seq<char>;

    closed spec fn view(&self) -> Seq<char> {
        self.id@
    }
}

impl AlbumId {
    /// Wraps a bare id as it stands; `from_uri` is the way in for a text that
    /// comes from outside.
    pub fn new(id: &str) -> (r: Self)
        ensures
            r@ == id@,
    {
        AlbumId { id: id.to_owned() }
    }

    /// The id in a canonical Spotify identifier of this kind.
    pub fn from_uri(uri: &str) -> (r: Option<Self>)
        ensures
            opt_view(r) == spotify_id_in(MediaKind::Album, uri@),
    {
        match spotify_id_of(MediaKind::Album, uri) {
            Some(id) => Some(AlbumId { id }),
            None => None,
        }
    }

    pub fn as_str(&self) -> (r: &str)
        ensures
            r@ == self@,
    {
        self.id.as_str()
    }

    /// The full identifier.
    pub fn to_uri(&self) -> (r: String)
        ensures
            r@ == spotify_text(MediaKind::Album, self@),
    {
        spotify_text_of(MediaKind::Album, self.id.as_str())
    }
}

/// The Spotify id of a playlist.
#[derive(Clone, Debug, PartialEq, Eq, Hash, PartialOrd, Ord)]
pub struct PlaylistId {
    id: String,
}

impl View for PlaylistId {
    type V = Seq<char>;

    closed spec fn view(&self) -> Seq<char> {
        self.id@
    }
}

impl PlaylistId {
    /// Wraps a bare id as it stands; `from_uri` is the way in for a text that
    /// comes from outside.
    pub fn new(id: &str) -> (r: Self)
        ensures
            r@ == id@,
    {
        PlaylistId { id: id.to_owned() }
    }

    /// The id in a canonical Spotify identifier of this kind.
    pub fn from_uri(uri: &str) -> (r: Option<Self>)
        ensures
            opt_view(r) == spotify_id_in(MediaKind::Playlist, uri@),
    {
        match spotify_id_of(MediaKind::Playlist, uri) {
            Some(id) => Some(PlaylistId { id }),
            None => None,
        }
    }

    pub fn as_str(&self) -> (r: &str)
        ensures
            r@ == self@,
    {
        self.id.as_str()
    }

    /// The full identifier.
    pub fn to_uri(&self) -> (r: String)
        ensures
            r@ == spotify_text(MediaKind::Playlist, self@),
    {
        spotify_text_of(MediaKind::Playlist, self.id.as_str())
    }
}

/// A scheme starts with a letter from a to z and goes on with such letters,
/// digits and hyphens; nothing else is one.
pub proof fn schemes_follow_their_grammar(s: Seq<char>)
    ensures
        is_scheme(s) <==> s.len() > 0 && 'a' <= s[0] && s[0] <= 'z' && (forall|i: int|
            1 <= i < s.len() ==> ('a' <= #[trigger] s[i] && s[i] <= 'z') || ('0' <= s[i] && s[i]
                <= '9') || s[i] == '-'),
{
    if is_scheme(s) {
        assert forall|i: int| 1 <= i < s.len() implies ('a' <= #[trigger] s[i] && s[i] <= 'z') || (
        '0' <= s[i] && s[i] <= '9') || s[i] == '-' by {
            assert(is_scheme_char(s[i]));
        }
    }
}

/// A bare id is a row of letters, digits, hyphens, dots, underscores and
/// tildes, and not empty; nothing else is one.
pub proof fn ids_hold_unreserved_characters(s: Seq<char>)
    ensures
        is_bare_id(s) <==> s.len() > 0 && (forall|i: int|
            0 <= i < s.len() ==> ('a' <= #[trigger] s[i] && s[i] <= 'z') || ('A' <= s[i] && s[i]
                <= 'Z') || ('0' <= s[i] && s[i] <= '9') || s[i] == '-' || s[i] == '.' || s[i] == '_'
                || s[i] == '~'),
{
    if is_bare_id(s) {
        assert forall|i: int| 0 <= i < s.len() implies ('a' <= #[trigger] s[i] && s[i] <= 'z') || (
        'A' <= s[i] && s[i] <= 'Z') || ('0' <= s[i] && s[i] <= '9') || s[i] == '-' || s[i] == '.'
            || s[i] == '_' || s[i] == '~' by {
            assert(is_id_char(s[i]));
        }
    }
}

/// A text of three parts is judged by its scheme first, then its kind, then
/// its id, and the first part that is wrong is told.
pub proof fn parts_are_judged_in_order(a: Seq<char>, b: Seq<char>, c: Seq<char>)
    requires
        forall|i: int| 0 <= i < a.len() ==> #[trigger] a[i] != ':',
        forall|i: int| 0 <= i < b.len() ==> #[trigger] b[i] != ':',
        forall|i: int| 0 <= i < c.len() ==> #[trigger] c[i] != ':',
    ensures
        ({
            let r = parsed_uri(a + seq![':'] + b + seq![':'] + c);
            let kind_is_known = b == "track"@ || b == "episode"@ || b == "show"@ || b == "album"@
                || b == "artist"@ || b == "playlist"@;
            &&& !is_scheme(a) ==> r == Err::<UriModel, UriErrorModel>(
                UriErrorModel::UnsupportedScheme(a),
            )
            &&& is_scheme(a) && !kind_is_known ==> r == Err::<UriModel, UriErrorModel>(
                UriErrorModel::UnsupportedKind(b),
            )
            &&& is_scheme(a) && kind_is_known && c.len() == 0 ==> r == Err::<
                UriModel,
                UriErrorModel,
            >(UriErrorModel::EmptyId)
            &&& is_scheme(a) && kind_is_known && c.len() > 0 && !is_bare_id(c) ==> r == Err::<
                UriModel,
                UriErrorModel,
            >(UriErrorModel::InvalidId(c))
            &&& is_scheme(a) && kind_is_known && is_bare_id(c) ==> r is Ok && r->Ok_0.scheme == a
                && r->Ok_0.kind.name() == b && r->Ok_0.id == c
        }),
{
    lemma_pieces_of_joined(a, b, c);
    lemma_known_kinds(b);
}

proof fn lemma_known_kinds(b: Seq<char>)
    ensures
        MediaKind::named(b) is Some <==> b == "track"@ || b == "episode"@ || b == "show"@ || b
            == "album"@ || b == "artist"@ || b == "playlist"@,
        MediaKind::named(b) matches Some(kind) ==> kind.name() == b,
{
    match MediaKind::named(b) {
        Some(kind) => {
            media_kind_names_round_trip(kind, b);
        },
        None => {},
    }
    media_kind_names_round_trip(MediaKind::Track, b);
    media_kind_names_round_trip(MediaKind::Episode, b);
    media_kind_names_round_trip(MediaKind::Show, b);
    media_kind_names_round_trip(MediaKind::Album, b);
    media_kind_names_round_trip(MediaKind::Artist, b);
    media_kind_names_round_trip(MediaKind::Playlist, b);
}

/// Only a text of three parts, with two colons between them, has the shape of
/// an identifier; any other is told to have the wrong shape.
pub proof fn other_shapes_are_told(s: Seq<char>) -> (at: (int, int))
    ensures
        parsed_uri(s) != Err::<UriModel, UriErrorModel>(UriErrorModel::InvalidShape) ==> {
            &&& 0 <= at.0 < at.1 < s.len() && s[at.0] == ':' && s[at.1] == ':'
            &&& forall|k: int|
                0 <= k < s.len() && k != at.0 && k != at.1 ==> #[trigger] s[k] != ':'
        },
{
    let parts = pieces(s, ':');
    if parts.len() == 3 {
        lemma_three_pieces(s);
        lemma_pieces_rejoin(s, ':');
        let a = parts[0];
        let b = parts[1];
        let c = parts[2];
        let i = a.len() as int;
        let j = i + 1 + b.len();
        assert(s[i] == ':' && s[j] == ':');
        assert forall|k: int| 0 <= k < s.len() && k != i && k != j implies #[trigger] s[k] != ':' by {
            if k < i {
                assert(s[k] == parts[0][k]);
            } else if k < j {
                assert(s[k] == parts[1][k - i - 1]);
            } else {
                assert(s[k] == parts[2][k - j - 1]);
            }
        }
        (i, j)
    } else {
        (0, 0)
    }
}

/// Where a Spotify identifier of one kind is wanted, its canonical text and
/// its bare id both will do. An identifier of another kind or another provider
/// is refused for that.
pub proof fn spotify_ids_and_texts_are_taken(kind: MediaKind, other: MediaKind, id: Seq<char>)
    requires
        is_bare_id(id),
    ensures
        spotify_uri_or_id(kind, id) == Ok::<UriModel, UriErrorModel>(
            UriModel { scheme: "spotify"@, kind, id },
        ),
        spotify_uri_or_id(kind, (UriModel { scheme: "spotify"@, kind, id }).text()) == Ok::<
            UriModel,
            UriErrorModel,
        >(UriModel { scheme: "spotify"@, kind, id }),
        other != kind ==> spotify_uri_or_id(
            kind,
            (UriModel { scheme: "spotify"@, kind: other, id }).text(),
        ) == Err::<UriModel, UriErrorModel>(
            UriErrorModel::UnexpectedKind { expected: kind, actual: other },
        ),
{
    reveal_strlit("spotify");
    assert(is_scheme("spotify"@));
    canonical_text_parses_back(UriModel { scheme: "spotify"@, kind, id });
    canonical_text_parses_back(UriModel { scheme: "spotify"@, kind: other, id });
    assert forall|i: int| 0 <= i < id.len() implies #[trigger] id[i] != ':' by {
        assert(is_id_char(id[i]));
    }
    lemma_pieces_single(id, ':');
}

/// An identifier of another provider is no Spotify one, whatever its kind.
pub proof fn foreign_identifiers_are_refused(kind: MediaKind, uri: UriModel)
    requires
        uri.valid(),
        uri.scheme != "spotify"@,
    ensures
        spotify_uri_or_id(kind, uri.text()) == Err::<UriModel, UriErrorModel>(
            UriErrorModel::UnsupportedScheme(uri.scheme),
        ),
        spotify_id_in(kind, uri.text()) is None,
{
    canonical_text_parses_back(uri);
}

/// A text holds a Spotify id of a kind exactly when it is the canonical text
/// of that id and kind.
pub proof fn spotify_ids_come_from_canonical_texts(kind: MediaKind, s: Seq<char>, id: Seq<char>)
    ensures
        spotify_id_in(kind, s) == Some(id) <==> is_bare_id(id) && s == "spotify"@ + seq![':']
            + kind.name() + seq![':'] + id,
{
    reveal_strlit("spotify");
    let uri = UriModel { scheme: "spotify"@, kind, id };
    parsed_text_is_canonical(s);
    if is_bare_id(id) {
        assert(is_scheme("spotify"@));
        canonical_text_parses_back(uri);
    }
}

/// Every error is told in its own words, with the part that is wrong.
pub proof fn errors_tell_the_wrong_part(error: UriErrorModel)
    ensures
        match error {
            UriErrorModel::InvalidShape => error.sentence()
                == "resource URI must have the form <scheme>:<kind>:<id>"@,
            UriErrorModel::UnsupportedScheme(s) => error.sentence()
                == "unsupported resource URI scheme `"@ + s + "`"@,
            UriErrorModel::UnsupportedKind(s) => error.sentence()
                == "unsupported resource kind `"@ + s + "`"@,
            UriErrorModel::UnexpectedKind { expected, actual } => error.sentence()
                == "expected resource kind `"@ + expected.name() + "`, got `"@ + actual.name()
                + "`"@,
            UriErrorModel::EmptyId => error.sentence() == "resource URI id must not be empty"@,
            UriErrorModel::InvalidId(s) => error.sentence() == "resource URI id `"@ + s
                + "` is not canonical"@,
        },
{
}

/// Identifiers are read, built and written as is told of them.
pub proof fn identifiers_are_read_as_told()
    ensures
        forall|value: &str, answer: bool|
            #[trigger] call_ensures(scheme_is_valid, (value,), answer) ==> {
                &&& answer == is_scheme(value@)
            },
        forall|scheme: UriScheme, kind: MediaKind, id: &str, answer: Result<ResourceUri, UriError>|
            #[trigger] call_ensures(ResourceUri::new, (scheme, kind, id), answer) ==> {
                &&& res_view(answer) == built_uri(scheme@, kind, id@)
                &&& answer is Ok ==> answer->Ok_0@.valid()
            },
        forall|kind: MediaKind, input: &str, answer: Result<ResourceUri, UriError>|
            #[trigger] call_ensures(
                ResourceUri::spotify_from_uri_or_id,
                (kind, input),
                answer,
            ) ==> {
                &&& res_view(answer) == spotify_uri_or_id(kind, input@)
                &&& answer is Ok ==> answer->Ok_0@.valid()
            },
        forall|input: &str, answer: Result<ResourceUri, UriError>|
            #[trigger] call_ensures(ResourceUri::parse, (input,), answer) ==> {
                &&& res_view(answer) == parsed_uri(input@)
                &&& answer is Ok ==> answer->Ok_0@.valid() && answer->Ok_0@.text() == input@
            },
        forall|this: &ResourceUri, answer: String|
            #[trigger] call_ensures(ResourceUri::as_uri, (this,), answer) ==> {
                &&& answer@ == this@.text()
                &&& this@.valid()
                &&& parsed_uri(answer@) == Ok::<UriModel, UriErrorModel>(this@)
            },
{
}

} // verus!
