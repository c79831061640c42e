//! Release R2025a of the Webots node set: the enumerated field values, and the
//! constants that nodes carry.
use crate::ast::{AstNode, FieldType, Header, HeaderV, Proto, ProtoV, Span};
use crate::conversion::ast_node_to_json;
use crate::conversion_spec::node_json;
use crate::document::{document_of, syntax_error_debug};
use crate::error::{Error, ProtoError};
use crate::json::{lemma_entries_view, JsonV, JsonValue};
use crate::writer::document_text;
use vstd::prelude::*;
use vstd::utf8::encode_utf8;

verus! {

/// A type whose values are written in a field of one Webots field type.
pub trait WebotsFieldType {
    /// The field type its values are written in.
    fn field_type() -> FieldType;
}

/// The controller of a robot.
#[derive(Debug, PartialEq)]
pub enum Controller {
    /// `<none>`: no controller.
    NoController,
    /// `<generic>`: the generic controller.
    Generic,
    /// `<extern>`: a controller started outside the simulator.
    Extern,
    /// A controller program given by name.
    Specific(String),
}

impl Controller {
    /// The text a controller is written with.
    pub open spec fn text_spec(self) -> Seq<char> {
        match self {
            Controller::NoController => "<none>"@,
            Controller::Generic => "<generic>"@,
            Controller::Extern => "<extern>"@,
            Controller::Specific(s) => s@,
        }
    }

    /// The text a controller is written with.
    pub fn as_text(&self) -> (r: String)
        ensures
            r@ == self.text_spec(),
    {
        match self {
            Controller::NoController => String::from_str("<none>"),
            Controller::Generic => String::from_str("<generic>"),
            Controller::Extern => String::from_str("<extern>"),
            Controller::Specific(s) => s.clone(),
        }
    }

    /// True when `s` is one of the three names that do not name a program.
    pub open spec fn is_reserved(s: Seq<char>) -> bool {
        s == "<none>"@ || s == "<generic>"@ || s == "<extern>"@
    }

    /// True when the text `s` names this controller: a special name names its
    /// controller, any other text the program of that name.
    pub open spec fn named_by(self, s: Seq<char>) -> bool {
        match self {
            Controller::NoController => s == "<none>"@,
            Controller::Generic => s == "<generic>"@,
            Controller::Extern => s == "<extern>"@,
            Controller::Specific(p) => p@ == s && !Controller::is_reserved(s),
        }
    }

    /// The controller a text names: one of the three special names, or a program.
    pub fn from_text(s: &str) -> (r: Controller)
        ensures
            r.named_by(s@),
            s@ == "<none>"@ ==> r == Controller::NoController,
            s@ == "<generic>"@ ==> r == Controller::Generic,
            s@ == "<extern>"@ ==> r == Controller::Extern,
            s@ != "<none>"@ && s@ != "<generic>"@ && s@ != "<extern>"@ ==> (r matches Controller::Specific(p)
                && p@ == s@),
    {
        proof {
            reveal_strlit("<none>");
            reveal_strlit("<generic>");
            reveal_strlit("<extern>");
            assert("<none>"@[1] == 'n' && "<generic>"@[1] == 'g' && "<extern>"@[1] == 'e');
            assert("<none>"@ != "<generic>"@ && "<none>"@ != "<extern>"@ && "<generic>"@ != "<extern>"@);
        }
        let t = String::from_str(s);
        if t.eq(&String::from_str("<none>")) {
            Controller::NoController
        } else if t.eq(&String::from_str("<generic>")) {
            Controller::Generic
        } else if t.eq(&String::from_str("<extern>")) {
            Controller::Extern
        } else {
            Controller::Specific(t)
        }
    }
}

/// Text round trip of controllers: the text a controller is written with names that
/// controller again, except a program whose name is one of the special names.
pub proof fn lemma_controller_text_round_trip(c: Controller)
    ensures
        c.named_by(c.text_spec()) <==> !(c is Specific && Controller::is_reserved(c.text_spec())),
{
}

impl Default for Controller {
    fn default() -> (r: Controller)
        ensures
            r == Controller::Generic,
    {
        Controller::Generic
    }
}

impl WebotsFieldType for Controller {
    fn field_type() -> (r: FieldType) {
        FieldType::SFString
    }
}

/// The kind of a lidar.
#[derive(Debug, Clone, Copy, PartialEq, Eq, Structural)]
pub enum LidarType {
    Fixed,
    Rotating,
}

impl LidarType {
    /// The text this value is written with in PROTO files.
    pub open spec fn text_spec(self) -> Seq<char> {
        match self {
            LidarType::Fixed => "fixed"@,
            LidarType::Rotating => "rotating"@,
        }
    }

    /// The text this value is written with in PROTO files.
    pub fn as_text(&self) -> (r: String)
        ensures
            r@ == self.text_spec(),
    {
        match self {
            LidarType::Fixed => String::from_str("fixed"),
            LidarType::Rotating => String::from_str("rotating"),
        }
    }

    /// The value written with this text, if any.
    pub fn from_text(s: &str) -> (r: Option<LidarType>)
        ensures
            match r {
                Some(v) => v.text_spec() == s@
                    && forall|w: LidarType| #[trigger] w.text_spec() == s@ ==> w == v,
                None => forall|v: LidarType| v.text_spec() != s@,
            },
    {
        let t = String::from_str(s);
        if t.eq(&String::from_str("fixed")) {
            proof {
                assert forall|w: LidarType| #[trigger] w.text_spec() == s@ implies w == LidarType::Fixed by {
                    lemma_lidar_type_texts_distinct(w, LidarType::Fixed);
                }
            }
            Some(LidarType::Fixed)
        } else if t.eq(&String::from_str("rotating")) {
            proof {
                assert forall|w: LidarType| #[trigger] w.text_spec() == s@ implies w == LidarType::Rotating by {
                    lemma_lidar_type_texts_distinct(w, LidarType::Rotating);
                }
            }
            Some(LidarType::Rotating)
        } else {
            proof {
                assert(LidarType::Fixed.text_spec() != s@);
                assert(LidarType::Rotating.text_spec() != s@);
                assert forall|v: LidarType| v.text_spec() != s@ by {
                    match v {
                        LidarType::Fixed => {},
                        LidarType::Rotating => {},
                    }
                }
            }
            None
        }
    }
}

/// Distinct values of [`LidarType`] are written with distinct texts.
proof fn lemma_lidar_type_texts_distinct(a: LidarType, b: LidarType)
    ensures
        a.text_spec() == b.text_spec() ==> a == b,
{
    reveal_strlit("fixed");
    reveal_strlit("rotating");
    match (a, b) {
        (LidarType::Fixed, LidarType::Rotating) => { assert("fixed"@.len() != "rotating"@.len()); },
        (LidarType::Rotating, LidarType::Fixed) => { assert("rotating"@.len() != "fixed"@.len()); },
        _ => {},
    }
}

impl Default for LidarType {
    fn default() -> (r: LidarType)
        ensures
            r == LidarType::Fixed,
    {
        LidarType::Fixed
    }
}

impl WebotsFieldType for LidarType {
    fn field_type() -> (r: FieldType) {
        FieldType::SFString
    }
}

/// The projection of a camera image.
#[derive(Debug, Clone, Copy, PartialEq, Eq, Structural)]
pub enum Projection {
    Planar,
    Cylindrical,
    Spherical,
}

impl Projection {
    /// The text this value is written with in PROTO files.
    pub open spec fn text_spec(self) -> Seq<char> {
        match self {
            Projection::Planar => "planar"@,
            Projection::Cylindrical => "cylindrical"@,
            Projection::Spherical => "spherical"@,
        }
    }

    /// The text this value is written with in PROTO files.
    pub fn as_text(&self) -> (r: String)
        ensures
            r@ == self.text_spec(),
    {
        match self {
            Projection::Planar => String::from_str("planar"),
            Projection::Cylindrical => String::from_str("cylindrical"),
            Projection::Spherical => String::from_str("spherical"),
        }
    }

    /// The value written with this text, if any.
    pub fn from_text(s: &str) -> (r: Option<Projection>)
        ensures
            match r {
                Some(v) => v.text_spec() == s@
                    && forall|w: Projection| #[trigger] w.text_spec() == s@ ==> w == v,
                None => forall|v: Projection| v.text_spec() != s@,
            },
    {
        let t = String::from_str(s);
        if t.eq(&String::from_str("planar")) {
            proof {
                assert forall|w: Projection| #[trigger] w.text_spec() == s@ implies w == Projection::Planar by {
                    lemma_projection_texts_distinct(w, Projection::Planar);
                }
            }
            Some(Projection::Planar)
        } else if t.eq(&String::from_str("cylindrical")) {
            proof {
                assert forall|w: Projection| #[trigger] w.text_spec() == s@ implies w == Projection::Cylindrical by {
                    lemma_projection_texts_distinct(w, Projection::Cylindrical);
                }
            }
            Some(Projection::Cylindrical)
        } else if t.eq(&String::from_str("spherical")) {
            proof {
                assert forall|w: Projection| #[trigger] w.text_spec() == s@ implies w == Projection::Spherical by {
                    lemma_projection_texts_distinct(w, Projection::Spherical);
                }
            }
            Some(Projection::Spherical)
        } else {
            proof {
                assert(Projection::Planar.text_spec() != s@);
                assert(Projection::Cylindrical.text_spec() != s@);
                assert(Projection::Spherical.text_spec() != s@);
                assert forall|v: Projection| v.text_spec() != s@ by {
                    match v {
                        Projection::Planar => {},
                        Projection::Cylindrical => {},
                        Projection::Spherical => {},
                    }
                }
            }
            None
        }
    }
}

/// Distinct values of [`Projection`] are written with distinct texts.
proof fn lemma_projection_texts_distinct(a: Projection, b: Projection)
    ensures
        a.text_spec() == b.text_spec() ==> a == b,
{
    reveal_strlit("planar");
    reveal_strlit("cylindrical");
    reveal_strlit("spherical");
    match (a, b) {
        (Projection::Planar, Projection::Cylindrical) => { assert("planar"@.len() != "cylindrical"@.len()); },
        (Projection::Planar, Projection::Spherical) => { assert("planar"@.len() != "spherical"@.len()); },
        (Projection::Cylindrical, Projection::Planar) => { assert("cylindrical"@.len() != "planar"@.len()); },
        (Projection::Cylindrical, Projection::Spherical) => { assert("cylindrical"@.len() != "spherical"@.len()); },
        (Projection::Spherical, Projection::Planar) => { assert("spherical"@.len() != "planar"@.len()); },
        (Projection::Spherical, Projection::Cylindrical) => { assert("spherical"@.len() != "cylindrical"@.len()); },
        _ => {},
    }
}

impl Default for Projection {
    fn default() -> (r: Projection)
        ensures
            r == Projection::Cylindrical,
    {
        Projection::Cylindrical
    }
}

impl WebotsFieldType for Projection {
    fn field_type() -> (r: FieldType) {
        FieldType::SFString
    }
}

/// The kind of a GPS.
#[derive(Debug, Clone, Copy, PartialEq, Eq, Structural)]
pub enum GpsType {
    Satellite,
    Laser,
    GroundTruth,
}

impl GpsType {
    /// The text this value is written with in PROTO files.
    pub open spec fn text_spec(self) -> Seq<char> {
        match self {
            GpsType::Satellite => "satellite"@,
            GpsType::Laser => "laser"@,
            GpsType::GroundTruth => "ground_truth"@,
        }
    }

    /// The text this value is written with in PROTO files.
    pub fn as_text(&self) -> (r: String)
        ensures
            r@ == self.text_spec(),
    {
        match self {
            GpsType::Satellite => String::from_str("satellite"),
            GpsType::Laser => String::from_str("laser"),
            GpsType::GroundTruth => String::from_str("ground_truth"),
        }
    }

    /// The value written with this text, if any.
    pub fn from_text(s: &str) -> (r: Option<GpsType>)
        ensures
            match r {
                Some(v) => v.text_spec() == s@
                    && forall|w: GpsType| #[trigger] w.text_spec() == s@ ==> w == v,
                None => forall|v: GpsType| v.text_spec() != s@,
            },
    {
        let t = String::from_str(s);
        if t.eq(&String::from_str("satellite")) {
            proof {
                assert forall|w: GpsType| #[trigger] w.text_spec() == s@ implies w == GpsType::Satellite by {
                    lemma_gps_type_texts_distinct(w, GpsType::Satellite);
                }
            }
            Some(GpsType::Satellite)
        } else if t.eq(&String::from_str("laser")) {
            proof {
                assert forall|w: GpsType| #[trigger] w.text_spec() == s@ implies w == GpsType::Laser by {
                    lemma_gps_type_texts_distinct(w, GpsType::Laser);
                }
            }
            Some(GpsType::Laser)
        } else if t.eq(&String::from_str("ground_truth")) {
            proof {
                assert forall|w: GpsType| #[trigger] w.text_spec() == s@ implies w == GpsType::GroundTruth by {
                    lemma_gps_type_texts_distinct(w, GpsType::GroundTruth);
                }
            }
            Some(GpsType::GroundTruth)
        } else {
            proof {
                assert(GpsType::Satellite.text_spec() != s@);
                assert(GpsType::Laser.text_spec() != s@);
                assert(GpsType::GroundTruth.text_spec() != s@);
                assert forall|v: GpsType| v.text_spec() != s@ by {
                    match v {
                        GpsType::Satellite => {},
                        GpsType::Laser => {},
                        GpsType::GroundTruth => {},
                    }
                }
            }
            None
        }
    }
}

/// Distinct values of [`GpsType`] are written with distinct texts.
proof fn lemma_gps_type_texts_distinct(a: GpsType, b: GpsType)
    ensures
        a.text_spec() == b.text_spec() ==> a == b,
{
    reveal_strlit("satellite");
    reveal_strlit("laser");
    reveal_strlit("ground_truth");
    match (a, b) {
        (GpsType::Satellite, GpsType::Laser) => { assert("satellite"@.len() != "laser"@.len()); },
        (GpsType::Satellite, GpsType::GroundTruth) => { assert("satellite"@.len() != "ground_truth"@.len()); },
        (GpsType::Laser, GpsType::Satellite) => { assert("laser"@.len() != "satellite"@.len()); },
        (GpsType::Laser, GpsType::GroundTruth) => { assert("laser"@.len() != "ground_truth"@.len()); },
        (GpsType::GroundTruth, GpsType::Satellite) => { assert("ground_truth"@.len() != "satellite"@.len()); },
        (GpsType::GroundTruth, GpsType::Laser) => { assert("ground_truth"@.len() != "laser"@.len()); },
        _ => {},
    }
}

impl Default for GpsType {
    fn default() -> (r: GpsType)
        ensures
            r == GpsType::Satellite,
    {
        GpsType::Satellite
    }
}

impl WebotsFieldType for GpsType {
    fn field_type() -> (r: FieldType) {
        FieldType::SFString
    }
}

/// The kind of a distance sensor.
#[derive(Debug, Clone, Copy, PartialEq, Eq, Structural)]
pub enum DistanceSensorType {
    Generic,
    InfraRed,
    Sonar,
    Laser,
}

impl DistanceSensorType {
    /// The text this value is written with in PROTO files.
    pub open spec fn text_spec(self) -> Seq<char> {
        match self {
            DistanceSensorType::Generic => "generic"@,
            DistanceSensorType::InfraRed => "infra-red"@,
            DistanceSensorType::Sonar => "sonar"@,
            DistanceSensorType::Laser => "laser"@,
        }
    }

    /// The text this value is written with in PROTO files.
    pub fn as_text(&self) -> (r: String)
        ensures
            r@ == self.text_spec(),
    {
        match self {
            DistanceSensorType::Generic => String::from_str("generic"),
            DistanceSensorType::InfraRed => String::from_str("infra-red"),
            DistanceSensorType::Sonar => String::from_str("sonar"),
            DistanceSensorType::Laser => String::from_str("laser"),
        }
    }

    /// The value written with this text, if any.
    pub fn from_text(s: &str) -> (r: Option<DistanceSensorType>)
        ensures
            match r {
                Some(v) => v.text_spec() == s@
                    && forall|w: DistanceSensorType| #[trigger] w.text_spec() == s@ ==> w == v,
                None => forall|v: DistanceSensorType| v.text_spec() != s@,
            },
    {
        let t = String::from_str(s);
        if t.eq(&String::from_str("generic")) {
            proof {
                assert forall|w: DistanceSensorType| #[trigger] w.text_spec() == s@ implies w == DistanceSensorType::Generic by {
                    lemma_distance_sensor_type_texts_distinct(w, DistanceSensorType::Generic);
                }
            }
            Some(DistanceSensorType::Generic)
        } else if t.eq(&String::from_str("infra-red")) {
            proof {
                assert forall|w: DistanceSensorType| #[trigger] w.text_spec() == s@ implies w == DistanceSensorType::InfraRed by {
                    lemma_distance_sensor_type_texts_distinct(w, DistanceSensorType::InfraRed);
                }
            }
            Some(DistanceSensorType::InfraRed)
        } else if t.eq(&String::from_str("sonar")) {
            proof {
                assert forall|w: DistanceSensorType| #[trigger] w.text_spec() == s@ implies w == DistanceSensorType::Sonar by {
                    lemma_distance_sensor_type_texts_distinct(w, DistanceSensorType::Sonar);
                }
            }
            Some(DistanceSensorType::Sonar)
        } else if t.eq(&String::from_str("laser")) {
            proof {
                assert forall|w: DistanceSensorType| #[trigger] w.text_spec() == s@ implies w == DistanceSensorType::Laser by {
                    lemma_distance_sensor_type_texts_distinct(w, DistanceSensorType::Laser);
                }
            }
            Some(DistanceSensorType::Laser)
        } else {
            proof {
                assert(DistanceSensorType::Generic.text_spec() != s@);
                assert(DistanceSensorType::InfraRed.text_spec() != s@);
                assert(DistanceSensorType::Sonar.text_spec() != s@);
                assert(DistanceSensorType::Laser.text_spec() != s@);
                assert forall|v: DistanceSensorType| v.text_spec() != s@ by {
                    match v {
                        DistanceSensorType::Generic => {},
                        DistanceSensorType::InfraRed => {},
                        DistanceSensorType::Sonar => {},
                        DistanceSensorType::Laser => {},
                    }
                }
            }
            None
        }
    }
}

/// Distinct values of [`DistanceSensorType`] are written with distinct texts.
proof fn lemma_distance_sensor_type_texts_distinct(a: DistanceSensorType, b: DistanceSensorType)
    ensures
        a.text_spec() == b.text_spec() ==> a == b,
{
    reveal_strlit("generic");
    reveal_strlit("infra-red");
    reveal_strlit("sonar");
    reveal_strlit("laser");
    match (a, b) {
        (DistanceSensorType::Generic, DistanceSensorType::InfraRed) => { assert("generic"@.len() != "infra-red"@.len()); },
        (DistanceSensorType::Generic, DistanceSensorType::Sonar) => { assert("generic"@.len() != "sonar"@.len()); },
        (DistanceSensorType::Generic, DistanceSensorType::Laser) => { assert("generic"@.len() != "laser"@.len()); },
        (DistanceSensorType::InfraRed, DistanceSensorType::Generic) => { assert("infra-red"@.len() != "generic"@.len()); },
        (DistanceSensorType::InfraRed, DistanceSensorType::Sonar) => { assert("infra-red"@.len() != "sonar"@.len()); },
        (DistanceSensorType::InfraRed, DistanceSensorType::Laser) => { assert("infra-red"@.len() != "laser"@.len()); },
        (DistanceSensorType::Sonar, DistanceSensorType::Generic) => { assert("sonar"@.len() != "generic"@.len()); },
        (DistanceSensorType::Sonar, DistanceSensorType::InfraRed) => { assert("sonar"@.len() != "infra-red"@.len()); },
        (DistanceSensorType::Sonar, DistanceSensorType::Laser) => { assert("sonar"@[0] != "laser"@[0]); },
        (DistanceSensorType::Laser, DistanceSensorType::Generic) => { assert("laser"@.len() != "generic"@.len()); },
        (DistanceSensorType::Laser, DistanceSensorType::InfraRed) => { assert("laser"@.len() != "infra-red"@.len()); },
        (DistanceSensorType::Laser, DistanceSensorType::Sonar) => { assert("laser"@[0] != "sonar"@[0]); },
        _ => {},
    }
}

impl Default for DistanceSensorType {
    fn default() -> (r: DistanceSensorType)
        ensures
            r == DistanceSensorType::Generic,
    {
        DistanceSensorType::Generic
    }
}

impl WebotsFieldType for DistanceSensorType {
    fn field_type() -> (r: FieldType) {
        FieldType::SFString
    }
}

/// The kind of a touch sensor.
#[derive(Debug, Clone, Copy, PartialEq, Eq, Structural)]
pub enum TouchSensorType {
    Bumper,
    Force,
    Force3d,
}

impl TouchSensorType {
    /// The text this value is written with in PROTO files.
    pub open spec fn text_spec(self) -> Seq<char> {
        match self {
            TouchSensorType::Bumper => "bumper"@,
            TouchSensorType::Force => "force"@,
            TouchSensorType::Force3d => "force-3d"@,
        }
    }

    /// The text this value is written with in PROTO files.
    pub fn as_text(&self) -> (r: String)
        ensures
            r@ == self.text_spec(),
    {
        match self {
            TouchSensorType::Bumper => String::from_str("bumper"),
            TouchSensorType::Force => String::from_str("force"),
            TouchSensorType::Force3d => String::from_str("force-3d"),
        }
    }

    /// The value written with this text, if any.
    pub fn from_text(s: &str) -> (r: Option<TouchSensorType>)
        ensures
            match r {
                Some(v) => v.text_spec() == s@
                    && forall|w: TouchSensorType| #[trigger] w.text_spec() == s@ ==> w == v,
                None => forall|v: TouchSensorType| v.text_spec() != s@,
            },
    {
        let t = String::from_str(s);
        if t.eq(&String::from_str("bumper")) {
            proof {
                assert forall|w: TouchSensorType| #[trigger] w.text_spec() == s@ implies w == TouchSensorType::Bumper by {
                    lemma_touch_sensor_type_texts_distinct(w, TouchSensorType::Bumper);
                }
            }
            Some(TouchSensorType::Bumper)
        } else if t.eq(&String::from_str("force")) {
            proof {
                assert forall|w: TouchSensorType| #[trigger] w.text_spec() == s@ implies w == TouchSensorType::Force by {
                    lemma_touch_sensor_type_texts_distinct(w, TouchSensorType::Force);
                }
            }
            Some(TouchSensorType::Force)
        } else if t.eq(&String::from_str("force-3d")) {
            proof {
                assert forall|w: TouchSensorType| #[trigger] w.text_spec() == s@ implies w == TouchSensorType::Force3d by {
                    lemma_touch_sensor_type_texts_distinct(w, TouchSensorType::Force3d);
                }
            }
            Some(TouchSensorType::Force3d)
        } else {
            proof {
                assert(TouchSensorType::Bumper.text_spec() != s@);
                assert(TouchSensorType::Force.text_spec() != s@);
                assert(TouchSensorType::Force3d.text_spec() != s@);
                assert forall|v: TouchSensorType| v.text_spec() != s@ by {
                    match v {
                        TouchSensorType::Bumper => {},
                        TouchSensorType::Force => {},
                        TouchSensorType::Force3d => {},
                    }
                }
            }
            None
        }
    }
}

/// Distinct values of [`TouchSensorType`] are written with distinct texts.
proof fn lemma_touch_sensor_type_texts_distinct(a: TouchSensorType, b: TouchSensorType)
    ensures
        a.text_spec() == b.text_spec() ==> a == b,
{
    reveal_strlit("bumper");
    reveal_strlit("force");
    reveal_strlit("force-3d");
    match (a, b) {
        (TouchSensorType::Bumper, TouchSensorType::Force) => { assert("bumper"@.len() != "force"@.len()); },
        (TouchSensorType::Bumper, TouchSensorType::Force3d) => { assert("bumper"@.len() != "force-3d"@.len()); },
        (TouchSensorType::Force, TouchSensorType::Bumper) => { assert("force"@.len() != "bumper"@.len()); },
        (TouchSensorType::Force, TouchSensorType::Force3d) => { assert("force"@.len() != "force-3d"@.len()); },
        (TouchSensorType::Force3d, TouchSensorType::Bumper) => { assert("force-3d"@.len() != "bumper"@.len()); },
        (TouchSensorType::Force3d, TouchSensorType::Force) => { assert("force-3d"@.len() != "force"@.len()); },
        _ => {},
    }
}

impl Default for TouchSensorType {
    fn default() -> (r: TouchSensorType)
        ensures
            r == TouchSensorType::Bumper,
    {
        TouchSensorType::Bumper
    }
}

impl WebotsFieldType for TouchSensorType {
    fn field_type() -> (r: FieldType) {
        FieldType::SFString
    }
}

/// The axes convention of a world.
#[derive(Debug, Clone, Copy, PartialEq, Eq, Structural)]
pub enum CoordinateSystem {
    Enu,
    Nue,
    Eun,
}

impl CoordinateSystem {
    /// The text this value is written with in PROTO files.
    pub open spec fn text_spec(self) -> Seq<char> {
        match self {
            CoordinateSystem::Enu => "ENU"@,
            CoordinateSystem::Nue => "NUE"@,
            CoordinateSystem::Eun => "EUN"@,
        }
    }

    /// The text this value is written with in PROTO files.
    pub fn as_text(&self) -> (r: String)
        ensures
            r@ == self.text_spec(),
    {
        match self {
            CoordinateSystem::Enu => String::from_str("ENU"),
            CoordinateSystem::Nue => String::from_str("NUE"),
            CoordinateSystem::Eun => String::from_str("EUN"),
        }
    }

    /// The value written with this text, if any.
    pub fn from_text(s: &str) -> (r: Option<CoordinateSystem>)
        ensures
            match r {
                Some(v) => v.text_spec() == s@
                    && forall|w: CoordinateSystem| #[trigger] w.text_spec() == s@ ==> w == v,
                None => forall|v: CoordinateSystem| v.text_spec() != s@,
            },
    {
        let t = String::from_str(s);
        if t.eq(&String::from_str("ENU")) {
            proof {
                assert forall|w: CoordinateSystem| #[trigger] w.text_spec() == s@ implies w == CoordinateSystem::Enu by {
                    lemma_coordinate_system_texts_distinct(w, CoordinateSystem::Enu);
                }
            }
            Some(CoordinateSystem::Enu)
        } else if t.eq(&String::from_str("NUE")) {
            proof {
                assert forall|w: CoordinateSystem| #[trigger] w.text_spec() == s@ implies w == CoordinateSystem::Nue by {
                    lemma_coordinate_system_texts_distinct(w, CoordinateSystem::Nue);
                }
            }
            Some(CoordinateSystem::Nue)
        } else if t.eq(&String::from_str("EUN")) {
            proof {
                assert forall|w: CoordinateSystem| #[trigger] w.text_spec() == s@ implies w == CoordinateSystem::Eun by {
                    lemma_coordinate_system_texts_distinct(w, CoordinateSystem::Eun);
                }
            }
            Some(CoordinateSystem::Eun)
        } else {
            proof {
                assert(CoordinateSystem::Enu.text_spec() != s@);
                assert(CoordinateSystem::Nue.text_spec() != s@);
                assert(CoordinateSystem::Eun.text_spec() != s@);
                assert forall|v: CoordinateSystem| v.text_spec() != s@ by {
                    match v {
                        CoordinateSystem::Enu => {},
                        CoordinateSystem::Nue => {},
                        CoordinateSystem::Eun => {},
                    }
                }
            }
            None
        }
    }
}

/// Distinct values of [`CoordinateSystem`] are written with distinct texts.
proof fn lemma_coordinate_system_texts_distinct(a: CoordinateSystem, b: CoordinateSystem)
    ensures
        a.text_spec() == b.text_spec() ==> a == b,
{
    reveal_strlit("ENU");
    reveal_strlit("NUE");
    reveal_strlit("EUN");
    match (a, b) {
        (CoordinateSystem::Enu, CoordinateSystem::Nue) => { assert("ENU"@[0] != "NUE"@[0]); },
        (CoordinateSystem::Enu, CoordinateSystem::Eun) => { assert("ENU"@[1] != "EUN"@[1]); },
        (CoordinateSystem::Nue, CoordinateSystem::Enu) => { assert("NUE"@[0] != "ENU"@[0]); },
        (CoordinateSystem::Nue, CoordinateSystem::Eun) => { assert("NUE"@[0] != "EUN"@[0]); },
        (CoordinateSystem::Eun, CoordinateSystem::Enu) => { assert("EUN"@[1] != "ENU"@[1]); },
        (CoordinateSystem::Eun, CoordinateSystem::Nue) => { assert("EUN"@[0] != "NUE"@[0]); },
        _ => {},
    }
}

impl Default for CoordinateSystem {
    fn default() -> (r: CoordinateSystem)
        ensures
            r == CoordinateSystem::Enu,
    {
        CoordinateSystem::Enu
    }
}

impl WebotsFieldType for CoordinateSystem {
    fn field_type() -> (r: FieldType) {
        FieldType::SFString
    }
}

/// The kind of fog.
#[derive(Debug, Clone, Copy, PartialEq, Eq, Structural)]
pub enum FogType {
    Linear,
    Exponential,
    Exponential2,
}

impl FogType {
    /// The text this value is written with in PROTO files.
    pub open spec fn text_spec(self) -> Seq<char> {
        match self {
            FogType::Linear => "LINEAR"@,
            FogType::Exponential => "EXPONENTIAL"@,
            FogType::Exponential2 => "EXPONENTIAL2"@,
        }
    }

    /// The text this value is written with in PROTO files.
    pub fn as_text(&self) -> (r: String)
        ensures
            r@ == self.text_spec(),
    {
        match self {
            FogType::Linear => String::from_str("LINEAR"),
            FogType::Exponential => String::from_str("EXPONENTIAL"),
            FogType::Exponential2 => String::from_str("EXPONENTIAL2"),
        }
    }

    /// The value written with this text, if any.
    pub fn from_text(s: &str) -> (r: Option<FogType>)
        ensures
            match r {
                Some(v) => v.text_spec() == s@
                    && forall|w: FogType| #[trigger] w.text_spec() == s@ ==> w == v,
                None => forall|v: FogType| v.text_spec() != s@,
            },
    {
        let t = String::from_str(s);
        if t.eq(&String::from_str("LINEAR")) {
            proof {
                assert forall|w: FogType| #[trigger] w.text_spec() == s@ implies w == FogType::Linear by {
                    lemma_fog_type_texts_distinct(w, FogType::Linear);
                }
            }
            Some(FogType::Linear)
        } else if t.eq(&String::from_str("EXPONENTIAL")) {
            proof {
                assert forall|w: FogType| #[trigger] w.text_spec() == s@ implies w == FogType::Exponential by {
                    lemma_fog_type_texts_distinct(w, FogType::Exponential);
                }
            }
            Some(FogType::Exponential)
        } else if t.eq(&String::from_str("EXPONENTIAL2")) {
            proof {
                assert forall|w: FogType| #[trigger] w.text_spec() == s@ implies w == FogType::Exponential2 by {
                    lemma_fog_type_texts_distinct(w, FogType::Exponential2);
                }
            }
            Some(FogType::Exponential2)
        } else {
            proof {
                assert(FogType::Linear.text_spec() != s@);
                assert(FogType::Exponential.text_spec() != s@);
                assert(FogType::Exponential2.text_spec() != s@);
                assert forall|v: FogType| v.text_spec() != s@ by {
                    match v {
                        FogType::Linear => {},
                        FogType::Exponential => {},
                        FogType::Exponential2 => {},
                    }
                }
            }
            None
        }
    }
}

/// Distinct values of [`FogType`] are written with distinct texts.
proof fn lemma_fog_type_texts_distinct(a: FogType, b: FogType)
    ensures
        a.text_spec() == b.text_spec() ==> a == b,
{
    reveal_strlit("LINEAR");
    reveal_strlit("EXPONENTIAL");
    reveal_strlit("EXPONENTIAL2");
    match (a, b) {
        (FogType::Linear, FogType::Exponential) => { assert("LINEAR"@.len() != "EXPONENTIAL"@.len()); },
        (FogType::Linear, FogType::Exponential2) => { assert("LINEAR"@.len() != "EXPONENTIAL2"@.len()); },
        (FogType::Exponential, FogType::Linear) => { assert("EXPONENTIAL"@.len() != "LINEAR"@.len()); },
        (FogType::Exponential, FogType::Exponential2) => { assert("EXPONENTIAL"@.len() != "EXPONENTIAL2"@.len()); },
        (FogType::Exponential2, FogType::Linear) => { assert("EXPONENTIAL2"@.len() != "LINEAR"@.len()); },
        (FogType::Exponential2, FogType::Exponential) => { assert("EXPONENTIAL2"@.len() != "EXPONENTIAL"@.len()); },
        _ => {},
    }
}

impl Default for FogType {
    fn default() -> (r: FogType)
        ensures
            r == FogType::Linear,
    {
        FogType::Linear
    }
}

impl WebotsFieldType for FogType {
    fn field_type() -> (r: FieldType) {
        FieldType::SFString
    }
}

/// The kind of an emitter.
#[derive(Debug, Clone, Copy, PartialEq, Eq, Structural)]
pub enum EmitterType {
    Radio,
    Serial,
    InfraRed,
}

impl EmitterType {
    /// The text this value is written with in PROTO files.
    pub open spec fn text_spec(self) -> Seq<char> {
        match self {
            EmitterType::Radio => "radio"@,
            EmitterType::Serial => "serial"@,
            EmitterType::InfraRed => "infra-red"@,
        }
    }

    /// The text this value is written with in PROTO files.
    pub fn as_text(&self) -> (r: String)
        ensures
            r@ == self.text_spec(),
    {
        match self {
            EmitterType::Radio => String::from_str("radio"),
            EmitterType::Serial => String::from_str("serial"),
            EmitterType::InfraRed => String::from_str("infra-red"),
        }
    }

    /// The value written with this text, if any.
    pub fn from_text(s: &str) -> (r: Option<EmitterType>)
        ensures
            match r {
                Some(v) => v.text_spec() == s@
                    && forall|w: EmitterType| #[trigger] w.text_spec() == s@ ==> w == v,
                None => forall|v: EmitterType| v.text_spec() != s@,
            },
    {
        let t = String::from_str(s);
        if t.eq(&String::from_str("radio")) {
            proof {
                assert forall|w: EmitterType| #[trigger] w.text_spec() == s@ implies w == EmitterType::Radio by {
                    lemma_emitter_type_texts_distinct(w, EmitterType::Radio);
                }
            }
            Some(EmitterType::Radio)
        } else if t.eq(&String::from_str("serial")) {
            proof {
                assert forall|w: EmitterType| #[trigger] w.text_spec() == s@ implies w == EmitterType::Serial by {
                    lemma_emitter_type_texts_distinct(w, EmitterType::Serial);
                }
            }
            Some(EmitterType::Serial)
        } else if t.eq(&String::from_str("infra-red")) {
            proof {
                assert forall|w: EmitterType| #[trigger] w.text_spec() == s@ implies w == EmitterType::InfraRed by {
                    lemma_emitter_type_texts_distinct(w, EmitterType::InfraRed);
                }
            }
            Some(EmitterType::InfraRed)
        } else {
            proof {
                assert(EmitterType::Radio.text_spec() != s@);
                assert(EmitterType::Serial.text_spec() != s@);
                assert(EmitterType::InfraRed.text_spec() != s@);
                assert forall|v: EmitterType| v.text_spec() != s@ by {
                    match v {
                        EmitterType::Radio => {},
                        EmitterType::Serial => {},
                        EmitterType::InfraRed => {},
                    }
                }
            }
            None
        }
    }
}

/// Distinct values of [`EmitterType`] are written with distinct texts.
proof fn lemma_emitter_type_texts_distinct(a: EmitterType, b: EmitterType)
    ensures
        a.text_spec() == b.text_spec() ==> a == b,
{
    reveal_strlit("radio");
    reveal_strlit("serial");
    reveal_strlit("infra-red");
    match (a, b) {
        (EmitterType::Radio, EmitterType::Serial) => { assert("radio"@.len() != "serial"@.len()); },
        (EmitterType::Radio, EmitterType::InfraRed) => { assert("radio"@.len() != "infra-red"@.len()); },
        (EmitterType::Serial, EmitterType::Radio) => { assert("serial"@.len() != "radio"@.len()); },
        (EmitterType::Serial, EmitterType::InfraRed) => { assert("serial"@.len() != "infra-red"@.len()); },
        (EmitterType::InfraRed, EmitterType::Radio) => { assert("infra-red"@.len() != "radio"@.len()); },
        (EmitterType::InfraRed, EmitterType::Serial) => { assert("infra-red"@.len() != "serial"@.len()); },
        _ => {},
    }
}

impl Default for EmitterType {
    fn default() -> (r: EmitterType)
        ensures
            r == EmitterType::Radio,
    {
        EmitterType::Radio
    }
}

impl WebotsFieldType for EmitterType {
    fn field_type() -> (r: FieldType) {
        FieldType::SFString
    }
}

/// The kind of a receiver.
#[derive(Debug, Clone, Copy, PartialEq, Eq, Structural)]
pub enum ReceiverType {
    Radio,
    Serial,
    InfraRed,
}

impl ReceiverType {
    /// The text this value is written with in PROTO files.
    pub open spec fn text_spec(self) -> Seq<char> {
        match self {
            ReceiverType::Radio => "radio"@,
            ReceiverType::Serial => "serial"@,
            ReceiverType::InfraRed => "infra-red"@,
        }
    }

    /// The text this value is written with in PROTO files.
    pub fn as_text(&self) -> (r: String)
        ensures
            r@ == self.text_spec(),
    {
        match self {
            ReceiverType::Radio => String::from_str("radio"),
            ReceiverType::Serial => String::from_str("serial"),
            ReceiverType::InfraRed => String::from_str("infra-red"),
        }
    }

    /// The value written with this text, if any.
    pub fn from_text(s: &str) -> (r: Option<ReceiverType>)
        ensures
            match r {
                Some(v) => v.text_spec() == s@
                    && forall|w: ReceiverType| #[trigger] w.text_spec() == s@ ==> w == v,
                None => forall|v: ReceiverType| v.text_spec() != s@,
            },
    {
        let t = String::from_str(s);
        if t.eq(&String::from_str("radio")) {
            proof {
                assert forall|w: ReceiverType| #[trigger] w.text_spec() == s@ implies w == ReceiverType::Radio by {
                    lemma_receiver_type_texts_distinct(w, ReceiverType::Radio);
                }
            }
            Some(ReceiverType::Radio)
        } else if t.eq(&String::from_str("serial")) {
            proof {
                assert forall|w: ReceiverType| #[trigger] w.text_spec() == s@ implies w == ReceiverType::Serial by {
                    lemma_receiver_type_texts_distinct(w, ReceiverType::Serial);
                }
            }
            Some(ReceiverType::Serial)
        } else if t.eq(&String::from_str("infra-red")) {
            proof {
                assert forall|w: ReceiverType| #[trigger] w.text_spec() == s@ implies w == ReceiverType::InfraRed by {
                    lemma_receiver_type_texts_distinct(w, ReceiverType::InfraRed);
                }
            }
            Some(ReceiverType::InfraRed)
        } else {
            proof {
                assert(ReceiverType::Radio.text_spec() != s@);
                assert(ReceiverType::Serial.text_spec() != s@);
                assert(ReceiverType::InfraRed.text_spec() != s@);
                assert forall|v: ReceiverType| v.text_spec() != s@ by {
                    match v {
                        ReceiverType::Radio => {},
                        ReceiverType::Serial => {},
                        ReceiverType::InfraRed => {},
                    }
                }
            }
            None
        }
    }
}

/// Distinct values of [`ReceiverType`] are written with distinct texts.
proof fn lemma_receiver_type_texts_distinct(a: ReceiverType, b: ReceiverType)
    ensures
        a.text_spec() == b.text_spec() ==> a == b,
{
    reveal_strlit("radio");
    reveal_strlit("serial");
    reveal_strlit("infra-red");
    match (a, b) {
        (ReceiverType::Radio, ReceiverType::Serial) => { assert("radio"@.len() != "serial"@.len()); },
        (ReceiverType::Radio, ReceiverType::InfraRed) => { assert("radio"@.len() != "infra-red"@.len()); },
        (ReceiverType::Serial, ReceiverType::Radio) => { assert("serial"@.len() != "radio"@.len()); },
        (ReceiverType::Serial, ReceiverType::InfraRed) => { assert("serial"@.len() != "infra-red"@.len()); },
        (ReceiverType::InfraRed, ReceiverType::Radio) => { assert("infra-red"@.len() != "radio"@.len()); },
        (ReceiverType::InfraRed, ReceiverType::Serial) => { assert("infra-red"@.len() != "serial"@.len()); },
        _ => {},
    }
}

impl Default for ReceiverType {
    fn default() -> (r: ReceiverType)
        ensures
            r == ReceiverType::Radio,
    {
        ReceiverType::Radio
    }
}

impl WebotsFieldType for ReceiverType {
    fn field_type() -> (r: FieldType) {
        FieldType::SFString
    }
}

/// The kind of a connector.
#[derive(Debug, Clone, Copy, PartialEq, Eq, Structural)]
pub enum ConnectorType {
    Symmetric,
    Active,
    Passive,
}

impl ConnectorType {
    /// The text this value is written with in PROTO files.
    pub open spec fn text_spec(self) -> Seq<char> {
        match self {
            ConnectorType::Symmetric => "symmetric"@,
            ConnectorType::Active => "active"@,
            ConnectorType::Passive => "passive"@,
        }
    }

    /// The text this value is written with in PROTO files.
    pub fn as_text(&self) -> (r: String)
        ensures
            r@ == self.text_spec(),
    {
        match self {
            ConnectorType::Symmetric => String::from_str("symmetric"),
            ConnectorType::Active => String::from_str("active"),
            ConnectorType::Passive => String::from_str("passive"),
        }
    }

    /// The value written with this text, if any.
    pub fn from_text(s: &str) -> (r: Option<ConnectorType>)
        ensures
            match r {
                Some(v) => v.text_spec() == s@
                    && forall|w: ConnectorType| #[trigger] w.text_spec() == s@ ==> w == v,
                None => forall|v: ConnectorType| v.text_spec() != s@,
            },
    {
        let t = String::from_str(s);
        if t.eq(&String::from_str("symmetric")) {
            proof {
                assert forall|w: ConnectorType| #[trigger] w.text_spec() == s@ implies w == ConnectorType::Symmetric by {
                    lemma_connector_type_texts_distinct(w, ConnectorType::Symmetric);
                }
            }
            Some(ConnectorType::Symmetric)
        } else if t.eq(&String::from_str("active")) {
            proof {
                assert forall|w: ConnectorType| #[trigger] w.text_spec() == s@ implies w == ConnectorType::Active by {
                    lemma_connector_type_texts_distinct(w, ConnectorType::Active);
                }
            }
            Some(ConnectorType::Active)
        } else if t.eq(&String::from_str("passive")) {
            proof {
                assert forall|w: ConnectorType| #[trigger] w.text_spec() == s@ implies w == ConnectorType::Passive by {
                    lemma_connector_type_texts_distinct(w, ConnectorType::Passive);
                }
            }
            Some(ConnectorType::Passive)
        } else {
            proof {
                assert(ConnectorType::Symmetric.text_spec() != s@);
                assert(ConnectorType::Active.text_spec() != s@);
                assert(ConnectorType::Passive.text_spec() != s@);
                assert forall|v: ConnectorType| v.text_spec() != s@ by {
                    match v {
                        ConnectorType::Symmetric => {},
                        ConnectorType::Active => {},
                        ConnectorType::Passive => {},
                    }
                }
            }
            None
        }
    }
}

/// Distinct values of [`ConnectorType`] are written with distinct texts.
proof fn lemma_connector_type_texts_distinct(a: ConnectorType, b: ConnectorType)
    ensures
        a.text_spec() == b.text_spec() ==> a == b,
{
    reveal_strlit("symmetric");
    reveal_strlit("active");
    reveal_strlit("passive");
    match (a, b) {
        (ConnectorType::Symmetric, ConnectorType::Active) => { assert("symmetric"@.len() != "active"@.len()); },
        (ConnectorType::Symmetric, ConnectorType::Passive) => { assert("symmetric"@.len() != "passive"@.len()); },
        (ConnectorType::Active, ConnectorType::Symmetric) => { assert("active"@.len() != "symmetric"@.len()); },
        (ConnectorType::Active, ConnectorType::Passive) => { assert("active"@.len() != "passive"@.len()); },
        (ConnectorType::Passive, ConnectorType::Symmetric) => { assert("passive"@.len() != "symmetric"@.len()); },
        (ConnectorType::Passive, ConnectorType::Active) => { assert("passive"@.len() != "active"@.len()); },
        _ => {},
    }
}

impl Default for ConnectorType {
    fn default() -> (r: ConnectorType)
        ensures
            r == ConnectorType::Symmetric,
    {
        ConnectorType::Symmetric
    }
}

impl WebotsFieldType for ConnectorType {
    fn field_type() -> (r: FieldType) {
        FieldType::SFString
    }
}

/// The sound file a rotational motor plays by default.
pub open spec fn rotational_motor_sound() -> Seq<char> {
    "https://raw.githubusercontent.com/cyberbotics/webots/{{ webots.version.major }}/projects/default/worlds/sounds/rotational_motor.wav"@
}

/// The sound file a linear motor plays by default.
pub open spec fn linear_motor_sound() -> Seq<char> {
    "https://raw.githubusercontent.com/cyberbotics/webots/{{ webots.version.major }}/projects/default/worlds/sounds/linear_motor.wav"@
}

/// The `RotationalMotor` node, which drives a rotational joint.
pub struct RotationalMotor;

impl RotationalMotor {
    /// The URL of the sound a rotational motor plays unless told otherwise (with the
    /// Webots major version left as a template placeholder).
    pub fn default_sound() -> (r: String)
        ensures
            r@ == rotational_motor_sound(),
    {
        String::from_str("https://raw.githubusercontent.com/cyberbotics/webots/{{ webots.version.major }}/projects/default/worlds/sounds/rotational_motor.wav")
    }
}

/// The `LinearMotor` node, which drives a linear joint.
pub struct LinearMotor;

impl LinearMotor {
    /// The URL of the sound a linear motor plays unless told otherwise (with the
    /// Webots major version left as a template placeholder).
    pub fn default_sound() -> (r: String)
        ensures
            r@ == linear_motor_sound(),
    {
        String::from_str("https://raw.githubusercontent.com/cyberbotics/webots/{{ webots.version.major }}/projects/default/worlds/sounds/linear_motor.wav")
    }
}

/// Encodes and decodes R2025a node types as PROTO text.
pub struct R2025aCodec;

/// The `Debug` text of a serialization error with this message.
pub uninterp spec fn serialization_error_debug(m: Seq<char>) -> Seq<char>;

/// `format!("{:?}")` of [`ProtoError::SerializationError`] with the given message: the
/// text depends on the message alone.
#[verifier::external_body]
fn debug_serialization_error(m: &String) -> (r: String)
    ensures
        r@ == serialization_error_debug(m@),
{
    format!("{:?}", ProtoError::SerializationError(m.clone()))
}

/// The header R2025a documents carry.
pub open spec fn r2025a_header() -> HeaderV {
    HeaderV { version: "R2025a"@, encoding: "utf8"@, raw: None, span: Span::zero_spec() }
}

/// What decoding a text gives before the typed layer: the JSON form of its first root
/// node, or the message of the deserialization error (a parse error, a missing or
/// other header, no root node, a node that does not convert).
pub open spec fn decode_spec(s: Seq<char>) -> Result<JsonV, Seq<char>> {
    match document_of(s) {
        Err(ev) => Err("Parsing error: "@ + syntax_error_debug(ev.line, ev.col, ev.message)),
        Ok(d) => match d.header {
            None => Err("Missing VRML header"@),
            Some(h) => if h.version != "R2025a"@ || h.encoding != "utf8"@ {
                Err("Unsupported header: #VRML_SIM "@ + h.version + " "@ + h.encoding)
            } else if d.root_nodes.len() == 0 {
                Err("Document has no root node"@)
            } else {
                match node_json(d.root_nodes[0]) {
                    Ok(j) => Ok(j),
                    Err(m) => Err(serialization_error_debug(m)),
                }
            },
        },
    }
}

/// The payload of a one-variant typed value `{Variant: payload}`.
pub open spec fn single_payload(v: JsonV) -> Result<JsonV, Seq<char>> {
    match v {
        JsonV::Object(es) => if es.len() != 1 {
            Err("Typed node value has unexpected shape"@)
        } else {
            Ok(es[0].1)
        },
        _ => Err("Typed node value is not an object"@),
    }
}

fn deserialization(m: String) -> (r: Error)
    ensures
        r == Error::Deserialization(m),
{
    Error::Deserialization(m)
}

impl R2025aCodec {
    /// A codec.
    pub fn new() -> (r: R2025aCodec)
        ensures
            r == R2025aCodec,
    {
        R2025aCodec
    }

    /// Reads an R2025a document up to the typed layer: parses it, insists on the
    /// `R2025a utf8` header, and gives the JSON form of its first root node (see
    /// [`decode_spec`]).
    pub fn decode_node(&self, input: &str) -> (r: Result<JsonValue, Error>)
        ensures
            encode_utf8(input@).len() > isize::MAX ==> r is Err,
            encode_utf8(input@).len() <= isize::MAX ==> match (r, decode_spec(input@)) {
                (Ok(j), Ok(v)) => j@ == v,
                (Err(Error::Deserialization(m)), Err(v)) => m@ == v,
                _ => false,
            },
    {
        let document = match Proto::from_text(input) {
            Ok(d) => d,
            Err(e) => {
                let m = match e {
                    ProtoError::ParseError(m) => m,
                    _ => String::new(),
                };
                let mut t = String::from_str("Parsing error: ");
                t.append(m.as_str());
                return Err(deserialization(t));
            },
        };
        let header = match &document.header {
            Some(h) => h,
            None => return Err(deserialization(String::from_str("Missing VRML header"))),
        };
        if !header.version.eq(&String::from_str("R2025a")) || !header.encoding.eq(&String::from_str("utf8")) {
            let mut t = String::from_str("Unsupported header: #VRML_SIM ");
            t.append(header.version.as_str());
            t.append(" ");
            t.append(header.encoding.as_str());
            return Err(deserialization(t));
        }
        proof {
            crate::ast::lemma_nodes_view(document.root_nodes@);
        }
        if document.root_nodes.len() == 0 {
            return Err(deserialization(String::from_str("Document has no root node")));
        }
        match ast_node_to_json(&document.root_nodes[0]) {
            Ok(j) => Ok(j),
            Err(e) => {
                let m = match e {
                    ProtoError::SerializationError(m) => m,
                    _ => String::new(),
                };
                Err(deserialization(debug_serialization_error(&m)))
            },
        }
    }

    /// The canonical text of a document holding `node` as its one root node, under the
    /// `R2025a utf8` header.
    pub fn encode_root(&self, node: AstNode) -> (r: String)
        ensures
            r@ == document_text(
                ProtoV {
                    header: Some(r2025a_header()),
                    externprotos: Seq::empty(),
                    proto: None,
                    root_nodes: seq![node@],
                    source_path: None,
                    source_content: None,
                },
            ),
    {
        let header = Header {
            version: String::from_str("R2025a"),
            encoding: String::from_str("utf8"),
            raw: None,
            span: Span::zero(),
        };
        let ghost nv = node@;
        let mut document = Proto::new_with_header(header);
        document.root_nodes.push(node);
        proof {
            crate::ast::lemma_nodes_view(document.root_nodes@);
            assert(crate::ast::externs_view(document.externprotos@) =~= Seq::<crate::ast::ExternProtoV>::empty());
            assert(crate::ast::nodes_view(document.root_nodes@) =~= seq![nv]);
        }
        match document.to_canonical_string() {
            Ok(s) => s,
            Err(_) => String::new(),
        }
    }
}

/// The payload of a one-variant typed value (see [`single_payload`]).
pub fn unwrap_single_variant_payload(value: JsonValue) -> (r: Result<JsonValue, Error>)
    ensures
        match (r, single_payload(value@)) {
            (Ok(j), Ok(v)) => j@ == v,
            (Err(Error::Deserialization(m)), Err(v)) => m@ == v,
            _ => false,
        },
{
    match value {
        JsonValue::Object(es) => {
            proof {
                lemma_entries_view(es@);
            }
            if es.len() != 1 {
                return Err(deserialization(String::from_str("Typed node value has unexpected shape")));
            }
            let mut es = es;
            let (_, payload) = es.remove(0);
            Ok(payload)
        },
        _ => Err(deserialization(String::from_str("Typed node value is not an object"))),
    }
}

} // verus!
