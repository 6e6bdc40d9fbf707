use crate::geometry::kind::Dimension;
use crate::record::{JsonModel, JsonValue};
use crate::text::same_text;
use vstd::prelude::*;
use vstd::string::StringExecFns;

verus! {

/// A named conversion between geometry types, declared in a mapping's `geometry` block.
///
/// Every conversion here discards something (a member, a hole, an extent, an ordering), which is
/// exactly why it has to be named in the mapping rather than applied on the source's behalf. The
/// lossless conversions (identity, promotion to a multi-geometry, and unwrapping a multi-geometry
/// of exactly one member) need no declaration and are always applied.
#[derive(Clone, Copy, Debug, PartialEq, Eq, Structural, Hash)]
pub enum ConversionStrategy {
    /// Keep the first member of a multi-geometry, in coordinate-array order.
    First,
    /// Keep the largest member of a multi-geometry by geodesic extent; never a position.
    Largest,
    /// Take the geometry's planar centroid.
    Centroid,
    /// Take a position guaranteed to lie on or inside the geometry.
    PointOnSurface,
    /// Take the first position the geometry lists.
    FirstVertex,
    /// Take the centre of the geometry's bounding box.
    BboxCenter,
    /// Take a polygon's exterior ring as a closed curve, discarding its holes.
    ExteriorRing,
    /// Take a polygon's whole boundary as a curve per ring, exterior first.
    Boundary,
    /// Join a `MultiPoint`'s positions into one curve, in coordinate-array order.
    Connect,
    /// Read a closed curve of at least four positions as a polygon's exterior ring.
    Ring,
    /// Take the convex hull of the geometry's positions.
    ConvexHull,
    /// Take the geometry's bounding box as a rectangular polygon.
    Envelope,
    /// Take every distinct position the geometry lists, in order, as a `MultiPoint`.
    Vertices,
    /// Fold a `GeometryCollection` into one admissible geometry.
    Flatten,
}

/// Whether a polygon's rings are rewound to RFC 7946 clause 3.1.6's right-hand rule.
#[derive(Clone, Copy, Debug, PartialEq, Eq, Structural, Hash)]
pub enum Winding {
    /// Rewind every ring to the right-hand rule: exterior rings counterclockwise, holes clockwise.
    Rfc7946,
    /// Emit every ring exactly as the source wound it.
    Keep,
}

/// Whether a position's optional third element survives.
#[derive(Clone, Copy, Debug, PartialEq, Eq, Structural, Hash)]
pub enum Altitude {
    /// Keep the altitude wherever the conversion can carry it.
    Keep,
    /// Truncate every position to a longitude and a latitude.
    Drop,
}

impl Default for Winding {
    /// Clause 3.1.6 states the right-hand rule as a producer requirement, so it is the default.
    fn default() -> (winding: Winding)
        ensures
            winding == Winding::Rfc7946,
    {
        Winding::Rfc7946
    }
}

impl Default for Altitude {
    /// An altitude survives unless the mapping asks otherwise.
    fn default() -> (altitude: Altitude)
        ensures
            altitude == Altitude::Keep,
    {
        Altitude::Keep
    }
}

/// Which target dimensions a conversion can produce.
pub open spec fn strategy_admits(strategy: ConversionStrategy, dimension: Dimension) -> bool {
    match strategy {
        ConversionStrategy::First | ConversionStrategy::Flatten => true,
        ConversionStrategy::Largest => dimension != Dimension::Point,
        ConversionStrategy::Centroid
        | ConversionStrategy::PointOnSurface
        | ConversionStrategy::FirstVertex
        | ConversionStrategy::BboxCenter
        | ConversionStrategy::Vertices => dimension == Dimension::Point,
        ConversionStrategy::ExteriorRing
        | ConversionStrategy::Boundary
        | ConversionStrategy::Connect => dimension == Dimension::Line,
        ConversionStrategy::Ring
        | ConversionStrategy::ConvexHull
        | ConversionStrategy::Envelope => dimension == Dimension::Area,
    }
}

/// The kebab-case token a mapping names a conversion with.
pub open spec fn strategy_token(strategy: ConversionStrategy) -> Seq<char> {
    match strategy {
        ConversionStrategy::First => "first"@,
        ConversionStrategy::Largest => "largest"@,
        ConversionStrategy::Centroid => "centroid"@,
        ConversionStrategy::PointOnSurface => "point-on-surface"@,
        ConversionStrategy::FirstVertex => "first-vertex"@,
        ConversionStrategy::BboxCenter => "bbox-center"@,
        ConversionStrategy::ExteriorRing => "exterior-ring"@,
        ConversionStrategy::Boundary => "boundary"@,
        ConversionStrategy::Connect => "connect"@,
        ConversionStrategy::Ring => "ring"@,
        ConversionStrategy::ConvexHull => "convex-hull"@,
        ConversionStrategy::Envelope => "envelope"@,
        ConversionStrategy::Vertices => "vertices"@,
        ConversionStrategy::Flatten => "flatten"@,
    }
}

impl ConversionStrategy {
    /// Whether the conversion can produce a geometry of the given dimension.
    ///
    /// A conversion that follows the source's own dimension admits every target, a derivation
    /// admits only the dimension it produces, and `largest` orders members by extent, which a
    /// position does not have, so it can never reach dimension zero.
    pub fn admits(self, dimension: Dimension) -> (admitted: bool)
        ensures
            admitted == strategy_admits(self, dimension),
    {
        match self {
            ConversionStrategy::First | ConversionStrategy::Flatten => true,
            ConversionStrategy::Largest => !matches!(dimension, Dimension::Point),
            ConversionStrategy::Centroid
            | ConversionStrategy::PointOnSurface
            | ConversionStrategy::FirstVertex
            | ConversionStrategy::BboxCenter
            | ConversionStrategy::Vertices => matches!(dimension, Dimension::Point),
            ConversionStrategy::ExteriorRing
            | ConversionStrategy::Boundary
            | ConversionStrategy::Connect => matches!(dimension, Dimension::Line),
            ConversionStrategy::Ring
            | ConversionStrategy::ConvexHull
            | ConversionStrategy::Envelope => matches!(dimension, Dimension::Area),
        }
    }

    /// The kebab-case token this conversion is written with in a mapping.
    pub fn to_string(&self) -> (token: String)
        ensures
            token@ == strategy_token(*self),
    {
        match self {
            ConversionStrategy::First => String::from_str("first"),
            ConversionStrategy::Largest => String::from_str("largest"),
            ConversionStrategy::Centroid => String::from_str("centroid"),
            ConversionStrategy::PointOnSurface => String::from_str("point-on-surface"),
            ConversionStrategy::FirstVertex => String::from_str("first-vertex"),
            ConversionStrategy::BboxCenter => String::from_str("bbox-center"),
            ConversionStrategy::ExteriorRing => String::from_str("exterior-ring"),
            ConversionStrategy::Boundary => String::from_str("boundary"),
            ConversionStrategy::Connect => String::from_str("connect"),
            ConversionStrategy::Ring => String::from_str("ring"),
            ConversionStrategy::ConvexHull => String::from_str("convex-hull"),
            ConversionStrategy::Envelope => String::from_str("envelope"),
            ConversionStrategy::Vertices => String::from_str("vertices"),
            ConversionStrategy::Flatten => String::from_str("flatten"),
        }
    }
}

/// How a mapping wants one attribute's geometry handled.
///
/// The `transformation` names the geometry type to produce; this says what may be lost getting
/// there. Its absence is the strict default: identity, promotion to a multi-geometry, and
/// unwrapping a multi-geometry of exactly one member all pass, and every conversion that would
/// discard coordinates is refused until the mapping names which loss it accepts.
#[derive(Clone, Copy, Debug, PartialEq, Eq, Structural)]
pub struct GeometryPolicy {
    convert: Option<ConversionStrategy>,
    winding: Winding,
    altitude: Altitude,
}

/// Assembles a [`GeometryPolicy`] key by key; an unset key keeps its default.
#[derive(Clone, Copy, Debug)]
pub struct GeometryPolicyBuilder {
    convert: Option<ConversionStrategy>,
    winding: Winding,
    altitude: Altitude,
}

impl GeometryPolicy {
    /// The policy's declared conversion.
    pub closed spec fn spec_convert(&self) -> Option<ConversionStrategy> {
        self.convert
    }

    /// The policy's winding rule.
    pub closed spec fn spec_winding(&self) -> Winding {
        self.winding
    }

    /// The policy's altitude rule.
    pub closed spec fn spec_altitude(&self) -> Altitude {
        self.altitude
    }

    /// The named conversion applied before the target type is reconciled, if any.
    pub fn convert(&self) -> (convert: &Option<ConversionStrategy>)
        ensures
            *convert == self.spec_convert(),
    {
        &self.convert
    }

    /// Whether polygon rings are rewound to RFC 7946 clause 3.1.6's right-hand rule.
    pub fn winding(&self) -> (winding: &Winding)
        ensures
            *winding == self.spec_winding(),
    {
        &self.winding
    }

    /// Whether a position's optional altitude survives.
    pub fn altitude(&self) -> (altitude: &Altitude)
        ensures
            *altitude == self.spec_altitude(),
    {
        &self.altitude
    }

    /// Starts a policy from the defaults.
    pub fn builder() -> (builder: GeometryPolicyBuilder)
        ensures
            builder.spec_build() == GeometryPolicy::spec_default(),
    {
        GeometryPolicyBuilder { convert: None, winding: Winding::Rfc7946, altitude: Altitude::Keep }
    }

    /// The strict default: no declared conversion, right-hand-rule winding, altitude kept.
    pub open spec fn spec_default() -> GeometryPolicy {
        GeometryPolicy::from_parts(None, Winding::Rfc7946, Altitude::Keep)
    }

    /// The policy with exactly these three keys.
    pub closed spec fn from_parts(
        convert: Option<ConversionStrategy>,
        winding: Winding,
        altitude: Altitude,
    ) -> GeometryPolicy {
        GeometryPolicy { convert, winding, altitude }
    }

    /// A policy's keys are the ones it was built from.
    pub broadcast proof fn lemma_from_parts(
        convert: Option<ConversionStrategy>,
        winding: Winding,
        altitude: Altitude,
    )
        ensures
            #[trigger] GeometryPolicy::from_parts(convert, winding, altitude).spec_convert() == convert,
            GeometryPolicy::from_parts(convert, winding, altitude).spec_winding() == winding,
            GeometryPolicy::from_parts(convert, winding, altitude).spec_altitude() == altitude,
    {
    }
}

impl Default for GeometryPolicy {
    /// The strict default: no declared conversion, right-hand-rule winding, altitude kept.
    fn default() -> (policy: GeometryPolicy)
        ensures
            policy == GeometryPolicy::spec_default(),
    {
        GeometryPolicy { convert: None, winding: Winding::Rfc7946, altitude: Altitude::Keep }
    }
}

impl GeometryPolicyBuilder {
    /// The policy this builder currently describes.
    pub closed spec fn spec_build(&self) -> GeometryPolicy {
        GeometryPolicy::from_parts(self.convert, self.winding, self.altitude)
    }

    /// Sets the declared conversion.
    pub fn convert(self, convert: Option<ConversionStrategy>) -> (builder: GeometryPolicyBuilder)
        ensures
            builder.spec_build() == GeometryPolicy::from_parts(
                convert,
                self.spec_build().spec_winding(),
                self.spec_build().spec_altitude(),
            ),
    {
        GeometryPolicyBuilder { convert, ..self }
    }

    /// Sets the winding rule.
    pub fn winding(self, winding: Winding) -> (builder: GeometryPolicyBuilder)
        ensures
            builder.spec_build() == GeometryPolicy::from_parts(
                self.spec_build().spec_convert(),
                winding,
                self.spec_build().spec_altitude(),
            ),
    {
        GeometryPolicyBuilder { winding, ..self }
    }

    /// Sets the altitude rule.
    pub fn altitude(self, altitude: Altitude) -> (builder: GeometryPolicyBuilder)
        ensures
            builder.spec_build() == GeometryPolicy::from_parts(
                self.spec_build().spec_convert(),
                self.spec_build().spec_winding(),
                altitude,
            ),
    {
        GeometryPolicyBuilder { altitude, ..self }
    }

    /// The assembled policy.
    pub fn build(self) -> (policy: GeometryPolicy)
        ensures
            policy == self.spec_build(),
    {
        GeometryPolicy { convert: self.convert, winding: self.winding, altitude: self.altitude }
    }
}

/// The conversion a kebab-case token names, if any.
pub open spec fn strategy_named(token: Seq<char>) -> Option<ConversionStrategy> {
    if token == "first"@ {
        Some(ConversionStrategy::First)
    } else if token == "largest"@ {
        Some(ConversionStrategy::Largest)
    } else if token == "centroid"@ {
        Some(ConversionStrategy::Centroid)
    } else if token == "point-on-surface"@ {
        Some(ConversionStrategy::PointOnSurface)
    } else if token == "first-vertex"@ {
        Some(ConversionStrategy::FirstVertex)
    } else if token == "bbox-center"@ {
        Some(ConversionStrategy::BboxCenter)
    } else if token == "exterior-ring"@ {
        Some(ConversionStrategy::ExteriorRing)
    } else if token == "boundary"@ {
        Some(ConversionStrategy::Boundary)
    } else if token == "connect"@ {
        Some(ConversionStrategy::Connect)
    } else if token == "ring"@ {
        Some(ConversionStrategy::Ring)
    } else if token == "convex-hull"@ {
        Some(ConversionStrategy::ConvexHull)
    } else if token == "envelope"@ {
        Some(ConversionStrategy::Envelope)
    } else if token == "vertices"@ {
        Some(ConversionStrategy::Vertices)
    } else if token == "flatten"@ {
        Some(ConversionStrategy::Flatten)
    } else {
        None
    }
}

/// The token a winding rule is written with.
pub open spec fn winding_token(winding: Winding) -> Seq<char> {
    match winding {
        Winding::Rfc7946 => "rfc7946"@,
        Winding::Keep => "keep"@,
    }
}

/// The winding rule a token names, if any.
pub open spec fn winding_named(token: Seq<char>) -> Option<Winding> {
    if token == "rfc7946"@ {
        Some(Winding::Rfc7946)
    } else if token == "keep"@ {
        Some(Winding::Keep)
    } else {
        None
    }
}

/// The token an altitude rule is written with.
pub open spec fn altitude_token(altitude: Altitude) -> Seq<char> {
    match altitude {
        Altitude::Keep => "keep"@,
        Altitude::Drop => "drop"@,
    }
}

/// The altitude rule a token names, if any.
pub open spec fn altitude_named(token: Seq<char>) -> Option<Altitude> {
    if token == "keep"@ {
        Some(Altitude::Keep)
    } else if token == "drop"@ {
        Some(Altitude::Drop)
    } else {
        None
    }
}

impl ConversionStrategy {
    /// Reads a conversion from the kebab-case token a mapping names it with.
    pub fn from_token(token: &str) -> (strategy: Option<ConversionStrategy>)
        ensures
            strategy == strategy_named(token@),
    {
        if same_text(token, "first") {
            Some(ConversionStrategy::First)
        } else if same_text(token, "largest") {
            Some(ConversionStrategy::Largest)
        } else if same_text(token, "centroid") {
            Some(ConversionStrategy::Centroid)
        } else if same_text(token, "point-on-surface") {
            Some(ConversionStrategy::PointOnSurface)
        } else if same_text(token, "first-vertex") {
            Some(ConversionStrategy::FirstVertex)
        } else if same_text(token, "bbox-center") {
            Some(ConversionStrategy::BboxCenter)
        } else if same_text(token, "exterior-ring") {
            Some(ConversionStrategy::ExteriorRing)
        } else if same_text(token, "boundary") {
            Some(ConversionStrategy::Boundary)
        } else if same_text(token, "connect") {
            Some(ConversionStrategy::Connect)
        } else if same_text(token, "ring") {
            Some(ConversionStrategy::Ring)
        } else if same_text(token, "convex-hull") {
            Some(ConversionStrategy::ConvexHull)
        } else if same_text(token, "envelope") {
            Some(ConversionStrategy::Envelope)
        } else if same_text(token, "vertices") {
            Some(ConversionStrategy::Vertices)
        } else if same_text(token, "flatten") {
            Some(ConversionStrategy::Flatten)
        } else {
            None
        }
    }
}

impl Winding {
    /// Reads a winding rule from its token.
    pub fn from_token(token: &str) -> (winding: Option<Winding>)
        ensures
            winding == winding_named(token@),
    {
        if same_text(token, "rfc7946") {
            Some(Winding::Rfc7946)
        } else if same_text(token, "keep") {
            Some(Winding::Keep)
        } else {
            None
        }
    }

    /// The token this winding rule is written with.
    pub fn to_string(&self) -> (token: String)
        ensures
            token@ == winding_token(*self),
    {
        match self {
            Winding::Rfc7946 => String::from_str("rfc7946"),
            Winding::Keep => String::from_str("keep"),
        }
    }
}

impl Altitude {
    /// Reads an altitude rule from its token.
    pub fn from_token(token: &str) -> (altitude: Option<Altitude>)
        ensures
            altitude == altitude_named(token@),
    {
        if same_text(token, "keep") {
            Some(Altitude::Keep)
        } else if same_text(token, "drop") {
            Some(Altitude::Drop)
        } else {
            None
        }
    }

    /// The token this altitude rule is written with.
    pub fn to_string(&self) -> (token: String)
        ensures
            token@ == altitude_token(*self),
    {
        match self {
            Altitude::Keep => String::from_str("keep"),
            Altitude::Drop => String::from_str("drop"),
        }
    }
}

/// Every conversion, winding rule and altitude rule reads back from the token it is written with.
pub proof fn lemma_tokens_read_back(strategy: ConversionStrategy, winding: Winding, altitude: Altitude)
    ensures
        strategy_named(strategy_token(strategy)) == Some(strategy),
        winding_named(winding_token(winding)) == Some(winding),
        altitude_named(altitude_token(altitude)) == Some(altitude),
{
    reveal_strlit("first");
    reveal_strlit("largest");
    reveal_strlit("centroid");
    reveal_strlit("point-on-surface");
    reveal_strlit("first-vertex");
    reveal_strlit("bbox-center");
    reveal_strlit("exterior-ring");
    reveal_strlit("boundary");
    reveal_strlit("connect");
    reveal_strlit("ring");
    reveal_strlit("convex-hull");
    reveal_strlit("envelope");
    reveal_strlit("vertices");
    reveal_strlit("flatten");
    reveal_strlit("rfc7946");
    reveal_strlit("keep");
    reveal_strlit("drop");
    // No two tokens agree in both their length and their first character.
    assert("first"@.len() == 5 && "first"@[0] == 'f');
    assert("largest"@.len() == 7 && "largest"@[0] == 'l');
    assert("centroid"@.len() == 8 && "centroid"@[0] == 'c');
    assert("point-on-surface"@.len() == 16 && "point-on-surface"@[0] == 'p');
    assert("first-vertex"@.len() == 12 && "first-vertex"@[0] == 'f');
    assert("bbox-center"@.len() == 11 && "bbox-center"@[0] == 'b');
    assert("exterior-ring"@.len() == 13 && "exterior-ring"@[0] == 'e');
    assert("boundary"@.len() == 8 && "boundary"@[0] == 'b');
    assert("connect"@.len() == 7 && "connect"@[0] == 'c');
    assert("ring"@.len() == 4 && "ring"@[0] == 'r');
    assert("convex-hull"@.len() == 11 && "convex-hull"@[0] == 'c');
    assert("envelope"@.len() == 8 && "envelope"@[0] == 'e');
    assert("vertices"@.len() == 8 && "vertices"@[0] == 'v');
    assert("flatten"@.len() == 7 && "flatten"@[0] == 'f');
    assert("rfc7946"@.len() == 7 && "rfc7946"@[0] == 'r');
    assert("keep"@.len() == 4 && "keep"@[0] == 'k');
    assert("drop"@.len() == 4 && "drop"@[0] == 'd');
}

/// Why a mapping's geometry block could not be read as a policy.
#[derive(Debug, Clone, PartialEq, Eq)]
pub enum PolicyError {
    /// The block is not an object.
    NotAnObject,
    /// The block names a key a policy does not have; a misspelled key is refused rather than
    /// read as no policy at all.
    UnknownKey(String),
    /// The value under this key is not one the key admits.
    InvalidValue(String),
}

/// Why a block is refused, with texts as character sequences.
pub enum PolicyRefusal {
    NotAnObject,
    UnknownKey(Seq<char>),
    InvalidValue(Seq<char>),
}

/// The meaning of a refusal.
pub open spec fn refusal_of(error: PolicyError) -> PolicyRefusal {
    match error {
        PolicyError::NotAnObject => PolicyRefusal::NotAnObject,
        PolicyError::UnknownKey(key) => PolicyRefusal::UnknownKey(key@),
        PolicyError::InvalidValue(key) => PolicyRefusal::InvalidValue(key@),
    }
}

/// The three keys of a policy: the declared conversion, the winding rule, the altitude rule.
pub type PolicyKeys = (Option<ConversionStrategy>, Winding, Altitude);

/// The keys after one more entry of the block is read.
pub open spec fn read_entry(keys: PolicyKeys, name: Seq<char>, value: JsonModel) -> Result<PolicyKeys, PolicyRefusal> {
    let invalid = Err(PolicyRefusal::InvalidValue(name));
    if name == "convert"@ {
        match value {
            JsonModel::Null => Ok((None, keys.1, keys.2)),
            JsonModel::Text(token) => match strategy_named(token) {
                Some(strategy) => Ok((Some(strategy), keys.1, keys.2)),
                None => invalid,
            },
            _ => invalid,
        }
    } else if name == "winding"@ {
        match value {
            JsonModel::Text(token) => match winding_named(token) {
                Some(winding) => Ok((keys.0, winding, keys.2)),
                None => invalid,
            },
            _ => invalid,
        }
    } else if name == "altitude"@ {
        match value {
            JsonModel::Text(token) => match altitude_named(token) {
                Some(altitude) => Ok((keys.0, keys.1, altitude)),
                None => invalid,
            },
            _ => invalid,
        }
    } else {
        Err(PolicyRefusal::UnknownKey(name))
    }
}

/// The keys a block's entries set, read in order from the defaults; the first entry refused
/// decides the refusal.
pub open spec fn read_entries(entries: Seq<(Seq<char>, JsonModel)>) -> Result<PolicyKeys, PolicyRefusal>
    decreases entries.len(),
{
    if entries.len() == 0 {
        Ok((None, Winding::Rfc7946, Altitude::Keep))
    } else {
        match read_entries(entries.drop_last()) {
            Ok(keys) => read_entry(keys, entries.last().0, entries.last().1),
            Err(refusal) => Err(refusal),
        }
    }
}

/// The policy a mapping's geometry block declares: an object whose keys are `convert`, `winding`
/// and `altitude`, each optional.
pub open spec fn policy_read(block: JsonModel) -> Result<PolicyKeys, PolicyRefusal> {
    match block {
        JsonModel::Object(entries) => read_entries(entries),
        _ => Err(PolicyRefusal::NotAnObject),
    }
}

/// A refusal met in the first entries is the refusal of every longer run of entries.
proof fn lemma_refusal_persists(entries: Seq<(Seq<char>, JsonModel)>, i: int)
    requires
        0 <= i <= entries.len(),
        read_entries(entries.take(i)) is Err,
    ensures
        read_entries(entries) == read_entries(entries.take(i)),
    decreases entries.len() - i,
{
    if i < entries.len() {
        assert(entries.take(i + 1).drop_last() =~= entries.take(i));
        lemma_refusal_persists(entries, i + 1);
    } else {
        assert(entries.take(i) =~= entries);
    }
}

impl GeometryPolicy {
    /// Reads a mapping's geometry block: an object whose `convert`, `winding` and `altitude` keys
    /// each default when absent. `convert` takes a conversion's token or null, the other two their
    /// rule's token; any other key is refused.
    pub fn from_json(block: &JsonValue) -> (policy: Result<GeometryPolicy, PolicyError>)
        ensures
            match policy_read(block.deep_view()) {
                Ok(keys) => policy == Ok::<GeometryPolicy, PolicyError>(
                    GeometryPolicy::from_parts(keys.0, keys.1, keys.2),
                ),
                Err(refusal) => policy matches Err(error) && refusal_of(error) == refusal,
            },
    {
        let object = match block {
            JsonValue::Object(object) => object,
            _ => return Err(PolicyError::NotAnObject),
        };
        let ghost entries = object@;
        assert(block.deep_view() == JsonModel::Object(entries));
        let mut convert: Option<ConversionStrategy> = None;
        let mut winding = Winding::Rfc7946;
        let mut altitude = Altitude::Keep;
        let mut i: usize = 0;
        assert(entries.take(0) =~= Seq::<(Seq<char>, JsonModel)>::empty());
        while i < object.len()
            invariant
                entries == object@,
                block.deep_view() == JsonModel::Object(entries),
                i <= entries.len(),
                read_entries(entries.take(i as int)) == Ok::<PolicyKeys, PolicyRefusal>(
                    (convert, winding, altitude),
                ),
            decreases entries.len() - i,
        {
            let name = object.name_at(i);
            let value = object.value_at(i);
            assert(entries.take(i + 1).drop_last() =~= entries.take(i as int));
            assert(entries.take(i + 1).last() == entries[i as int]);
            let ghost step = read_entry((convert, winding, altitude), name@, value.deep_view());
            if same_text(name, "convert") {
                match value {
                    JsonValue::Null => {
                        convert = None;
                    },
                    JsonValue::Text(token) => match ConversionStrategy::from_token(token.as_str()) {
                        Some(strategy) => {
                            convert = Some(strategy);
                        },
                        None => {
                            proof {
                                lemma_refusal_persists(entries, i + 1);
                            }
                            return Err(PolicyError::InvalidValue(crate::text::owned(name)));
                        },
                    },
                    _ => {
                        proof {
                            lemma_refusal_persists(entries, i + 1);
                        }
                        return Err(PolicyError::InvalidValue(crate::text::owned(name)));
                    },
                }
            } else if same_text(name, "winding") {
                match value {
                    JsonValue::Text(token) => match Winding::from_token(token.as_str()) {
                        Some(rule) => {
                            winding = rule;
                        },
                        None => {
                            proof {
                                lemma_refusal_persists(entries, i + 1);
                            }
                            return Err(PolicyError::InvalidValue(crate::text::owned(name)));
                        },
                    },
                    _ => {
                        proof {
                            lemma_refusal_persists(entries, i + 1);
                        }
                        return Err(PolicyError::InvalidValue(crate::text::owned(name)));
                    },
                }
            } else if same_text(name, "altitude") {
                match value {
                    JsonValue::Text(token) => match Altitude::from_token(token.as_str()) {
                        Some(rule) => {
                            altitude = rule;
                        },
                        None => {
                            proof {
                                lemma_refusal_persists(entries, i + 1);
                            }
                            return Err(PolicyError::InvalidValue(crate::text::owned(name)));
                        },
                    },
                    _ => {
                        proof {
                            lemma_refusal_persists(entries, i + 1);
                        }
                        return Err(PolicyError::InvalidValue(crate::text::owned(name)));
                    },
                }
            } else {
                proof {
                    lemma_refusal_persists(entries, i + 1);
                }
                return Err(PolicyError::UnknownKey(crate::text::owned(name)));
            }
            assert(step == Ok::<PolicyKeys, PolicyRefusal>((convert, winding, altitude)));
            i = i + 1;
        }
        assert(entries.take(i as int) =~= entries);
        Ok(GeometryPolicy { convert, winding, altitude })
    }
}

} // verus!
