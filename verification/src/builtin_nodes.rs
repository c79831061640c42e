//! The schemas of the built-in Webots nodes (release R2025a): each node's fields and
//! their types.
//!
//! Each table lists a node's fields as the node type declares them (in snake case for
//! the node's own fields); [`to_webots_field_name`] gives the names used in PROTO text.
use crate::ast::{FieldType, FieldTypeV};
use vstd::prelude::*;

verus! {

/// A field of a node's declaration: its declared name and its type.
pub type RawField = (Seq<char>, FieldTypeV);

pub open spec fn raw_fields_view(v: Seq<(String, FieldType)>) -> Seq<RawField> {
    Seq::new(v.len(), |i: int| (v[i].0@, v[i].1@))
}

fn entry(name: &str, t: FieldType) -> (r: (String, FieldType))
    ensures
        r.0@ == name@,
        r.1 == t,
{
    (String::from_str(name), t)
}

/// The declared fields of the built-in node type `name`, if it is one.
pub open spec fn raw_schema(name: Seq<char>) -> Option<Seq<RawField>> {
    if name == "WorldInfo"@ {
        Some(fields_world_info_spec())
    } else if name == "Viewpoint"@ {
        Some(fields_viewpoint_spec())
    } else if name == "Group"@ {
        Some(fields_group_spec())
    } else if name == "Pose"@ {
        Some(fields_pose_spec())
    } else if name == "Transform"@ {
        Some(fields_transform_spec())
    } else if name == "Billboard"@ {
        Some(fields_billboard_spec())
    } else if name == "Shape"@ {
        Some(fields_shape_spec())
    } else if name == "Appearance"@ {
        Some(fields_appearance_spec())
    } else if name == "PBRAppearance"@ {
        Some(fields_pbr_appearance_spec())
    } else if name == "Material"@ {
        Some(fields_material_spec())
    } else if name == "ImageTexture"@ {
        Some(fields_image_texture_spec())
    } else if name == "TextureTransform"@ {
        Some(fields_texture_transform_spec())
    } else if name == "Box"@ {
        Some(fields_box_spec())
    } else if name == "Sphere"@ {
        Some(fields_sphere_spec())
    } else if name == "Capsule"@ {
        Some(fields_capsule_spec())
    } else if name == "Cylinder"@ {
        Some(fields_cylinder_spec())
    } else if name == "Plane"@ {
        Some(fields_plane_spec())
    } else if name == "Cone"@ {
        Some(fields_cone_spec())
    } else if name == "ElevationGrid"@ {
        Some(fields_elevation_grid_spec())
    } else if name == "IndexedFaceSet"@ {
        Some(fields_indexed_face_set_spec())
    } else if name == "IndexedLineSet"@ {
        Some(fields_indexed_line_set_spec())
    } else if name == "PointSet"@ {
        Some(fields_point_set_spec())
    } else if name == "Mesh"@ {
        Some(fields_mesh_spec())
    } else if name == "CadShape"@ {
        Some(fields_cad_shape_spec())
    } else if name == "Robot"@ {
        Some(fields_robot_spec())
    } else if name == "Solid"@ {
        Some(fields_solid_spec())
    } else if name == "Fluid"@ {
        Some(fields_fluid_spec())
    } else if name == "Accelerometer"@ {
        Some(fields_accelerometer_spec())
    } else if name == "Altimeter"@ {
        Some(fields_altimeter_spec())
    } else if name == "Camera"@ {
        Some(fields_camera_spec())
    } else if name == "Compass"@ {
        Some(fields_compass_spec())
    } else if name == "DistanceSensor"@ {
        Some(fields_distance_sensor_spec())
    } else if name == "GPS"@ {
        Some(fields_gps_spec())
    } else if name == "Gyro"@ {
        Some(fields_gyro_spec())
    } else if name == "InertialUnit"@ {
        Some(fields_inertial_unit_spec())
    } else if name == "Lidar"@ {
        Some(fields_lidar_spec())
    } else if name == "LightSensor"@ {
        Some(fields_light_sensor_spec())
    } else if name == "PositionSensor"@ {
        Some(fields_position_sensor_spec())
    } else if name == "Radar"@ {
        Some(fields_radar_spec())
    } else if name == "RangeFinder"@ {
        Some(fields_range_finder_spec())
    } else if name == "TouchSensor"@ {
        Some(fields_touch_sensor_spec())
    } else if name == "RotationalMotor"@ {
        Some(fields_rotational_motor_spec())
    } else if name == "LinearMotor"@ {
        Some(fields_linear_motor_spec())
    } else if name == "Brake"@ {
        Some(fields_brake_spec())
    } else if name == "Propeller"@ {
        Some(fields_propeller_spec())
    } else if name == "Muscle"@ {
        Some(fields_muscle_spec())
    } else if name == "HingeJoint"@ {
        Some(fields_hinge_joint_spec())
    } else if name == "Hinge2Joint"@ {
        Some(fields_hinge2_joint_spec())
    } else if name == "BallJoint"@ {
        Some(fields_ball_joint_spec())
    } else if name == "SliderJoint"@ {
        Some(fields_slider_joint_spec())
    } else if name == "JointParameters"@ {
        Some(fields_joint_parameters_spec())
    } else if name == "HingeJointParameters"@ {
        Some(fields_hinge_joint_parameters_spec())
    } else if name == "BallJointParameters"@ {
        Some(fields_ball_joint_parameters_spec())
    } else if name == "LED"@ {
        Some(fields_led_spec())
    } else if name == "Emitter"@ {
        Some(fields_emitter_spec())
    } else if name == "Receiver"@ {
        Some(fields_receiver_spec())
    } else if name == "Connector"@ {
        Some(fields_connector_spec())
    } else if name == "Display"@ {
        Some(fields_display_spec())
    } else if name == "Pen"@ {
        Some(fields_pen_spec())
    } else if name == "Speaker"@ {
        Some(fields_speaker_spec())
    } else if name == "Charger"@ {
        Some(fields_charger_spec())
    } else if name == "VacuumGripper"@ {
        Some(fields_vacuum_gripper_spec())
    } else if name == "Track"@ {
        Some(fields_track_spec())
    } else if name == "TrackWheel"@ {
        Some(fields_track_wheel_spec())
    } else if name == "Skin"@ {
        Some(fields_skin_spec())
    } else if name == "Background"@ {
        Some(fields_background_spec())
    } else if name == "Fog"@ {
        Some(fields_fog_spec())
    } else if name == "DirectionalLight"@ {
        Some(fields_directional_light_spec())
    } else if name == "PointLight"@ {
        Some(fields_point_light_spec())
    } else if name == "SpotLight"@ {
        Some(fields_spot_light_spec())
    } else if name == "Physics"@ {
        Some(fields_physics_spec())
    } else if name == "Damping"@ {
        Some(fields_damping_spec())
    } else if name == "ContactProperties"@ {
        Some(fields_contact_properties_spec())
    } else if name == "ImmersionProperties"@ {
        Some(fields_immersion_properties_spec())
    } else if name == "SolidReference"@ {
        Some(fields_solid_reference_spec())
    } else if name == "Color"@ {
        Some(fields_color_spec())
    } else if name == "Coordinate"@ {
        Some(fields_coordinate_spec())
    } else if name == "Normal"@ {
        Some(fields_normal_spec())
    } else if name == "TextureCoordinate"@ {
        Some(fields_texture_coordinate_spec())
    } else if name == "Slot"@ {
        Some(fields_slot_spec())
    } else if name == "Focus"@ {
        Some(fields_focus_spec())
    } else if name == "Lens"@ {
        Some(fields_lens_spec())
    } else if name == "LensFlare"@ {
        Some(fields_lens_flare_spec())
    } else if name == "Recognition"@ {
        Some(fields_recognition_spec())
    } else if name == "Zoom"@ {
        Some(fields_zoom_spec())
    } else if name == "RectangleArena"@ {
        Some(fields_rectangle_arena_spec())
    } else {
        None
    }
}

pub open spec fn fields_world_info_spec() -> Seq<RawField> {
    seq![("info"@, FieldTypeV::MFString), ("title"@, FieldTypeV::SFString), ("window"@, FieldTypeV::SFString), ("gravity"@, FieldTypeV::SFFloat), ("cfm"@, FieldTypeV::SFFloat), ("erp"@, FieldTypeV::SFFloat), ("physics"@, FieldTypeV::SFString), ("basic_time_step"@, FieldTypeV::SFFloat), ("fps"@, FieldTypeV::SFFloat), ("optimal_thread_count"@, FieldTypeV::SFInt32), ("physics_disable_time"@, FieldTypeV::SFFloat), ("physics_disable_linear_threshold"@, FieldTypeV::SFFloat), ("physics_disable_angular_threshold"@, FieldTypeV::SFFloat), ("default_damping"@, FieldTypeV::SFNode), ("ink_evaporation"@, FieldTypeV::SFFloat), ("coordinate_system"@, FieldTypeV::SFString), ("gps_coordinate_system"@, FieldTypeV::SFString), ("gps_reference"@, FieldTypeV::MFVec3f), ("line_scale"@, FieldTypeV::SFFloat), ("drag_force_scale"@, FieldTypeV::SFFloat), ("drag_torque_scale"@, FieldTypeV::SFFloat), ("random_seed"@, FieldTypeV::SFInt32), ("contact_properties"@, FieldTypeV::MFNode)]
}

fn fields_world_info() -> (r: Vec<(String, FieldType)>)
    ensures
        raw_fields_view(r@) == fields_world_info_spec(),
{
    let mut v: Vec<(String, FieldType)> = Vec::new();
    v.push(entry("info", FieldType::MFString));
    v.push(entry("title", FieldType::SFString));
    v.push(entry("window", FieldType::SFString));
    v.push(entry("gravity", FieldType::SFFloat));
    v.push(entry("cfm", FieldType::SFFloat));
    v.push(entry("erp", FieldType::SFFloat));
    v.push(entry("physics", FieldType::SFString));
    v.push(entry("basic_time_step", FieldType::SFFloat));
    v.push(entry("fps", FieldType::SFFloat));
    v.push(entry("optimal_thread_count", FieldType::SFInt32));
    v.push(entry("physics_disable_time", FieldType::SFFloat));
    v.push(entry("physics_disable_linear_threshold", FieldType::SFFloat));
    v.push(entry("physics_disable_angular_threshold", FieldType::SFFloat));
    v.push(entry("default_damping", FieldType::SFNode));
    v.push(entry("ink_evaporation", FieldType::SFFloat));
    v.push(entry("coordinate_system", FieldType::SFString));
    v.push(entry("gps_coordinate_system", FieldType::SFString));
    v.push(entry("gps_reference", FieldType::MFVec3f));
    v.push(entry("line_scale", FieldType::SFFloat));
    v.push(entry("drag_force_scale", FieldType::SFFloat));
    v.push(entry("drag_torque_scale", FieldType::SFFloat));
    v.push(entry("random_seed", FieldType::SFInt32));
    v.push(entry("contact_properties", FieldType::MFNode));
    proof {
        assert(raw_fields_view(v@) =~= fields_world_info_spec());
    }
    v
}

pub open spec fn fields_viewpoint_spec() -> Seq<RawField> {
    seq![("field_of_view"@, FieldTypeV::SFFloat), ("orientation"@, FieldTypeV::SFRotation), ("position"@, FieldTypeV::SFVec3f), ("description"@, FieldTypeV::SFString), ("near"@, FieldTypeV::SFFloat), ("far"@, FieldTypeV::SFFloat), ("exposure"@, FieldTypeV::SFFloat), ("follow"@, FieldTypeV::SFString), ("follow_type"@, FieldTypeV::SFString), ("follow_smoothness"@, FieldTypeV::SFFloat), ("ambient_occlusion_radius"@, FieldTypeV::SFFloat), ("bloom_threshold"@, FieldTypeV::SFFloat)]
}

fn fields_viewpoint() -> (r: Vec<(String, FieldType)>)
    ensures
        raw_fields_view(r@) == fields_viewpoint_spec(),
{
    let mut v: Vec<(String, FieldType)> = Vec::new();
    v.push(entry("field_of_view", FieldType::SFFloat));
    v.push(entry("orientation", FieldType::SFRotation));
    v.push(entry("position", FieldType::SFVec3f));
    v.push(entry("description", FieldType::SFString));
    v.push(entry("near", FieldType::SFFloat));
    v.push(entry("far", FieldType::SFFloat));
    v.push(entry("exposure", FieldType::SFFloat));
    v.push(entry("follow", FieldType::SFString));
    v.push(entry("follow_type", FieldType::SFString));
    v.push(entry("follow_smoothness", FieldType::SFFloat));
    v.push(entry("ambient_occlusion_radius", FieldType::SFFloat));
    v.push(entry("bloom_threshold", FieldType::SFFloat));
    proof {
        assert(raw_fields_view(v@) =~= fields_viewpoint_spec());
    }
    v
}

pub open spec fn fields_group_spec() -> Seq<RawField> {
    seq![("children"@, FieldTypeV::MFNode)]
}

fn fields_group() -> (r: Vec<(String, FieldType)>)
    ensures
        raw_fields_view(r@) == fields_group_spec(),
{
    let mut v: Vec<(String, FieldType)> = Vec::new();
    v.push(entry("children", FieldType::MFNode));
    proof {
        assert(raw_fields_view(v@) =~= fields_group_spec());
    }
    v
}

pub open spec fn fields_pose_spec() -> Seq<RawField> {
    seq![("translation"@, FieldTypeV::SFVec3f), ("rotation"@, FieldTypeV::SFRotation), ("children"@, FieldTypeV::MFNode)]
}

fn fields_pose() -> (r: Vec<(String, FieldType)>)
    ensures
        raw_fields_view(r@) == fields_pose_spec(),
{
    let mut v: Vec<(String, FieldType)> = Vec::new();
    v.push(entry("translation", FieldType::SFVec3f));
    v.push(entry("rotation", FieldType::SFRotation));
    v.push(entry("children", FieldType::MFNode));
    proof {
        assert(raw_fields_view(v@) =~= fields_pose_spec());
    }
    v
}

pub open spec fn fields_transform_spec() -> Seq<RawField> {
    seq![("translation"@, FieldTypeV::SFVec3f), ("rotation"@, FieldTypeV::SFRotation), ("scale"@, FieldTypeV::SFVec3f), ("children"@, FieldTypeV::MFNode)]
}

fn fields_transform() -> (r: Vec<(String, FieldType)>)
    ensures
        raw_fields_view(r@) == fields_transform_spec(),
{
    let mut v: Vec<(String, FieldType)> = Vec::new();
    v.push(entry("translation", FieldType::SFVec3f));
    v.push(entry("rotation", FieldType::SFRotation));
    v.push(entry("scale", FieldType::SFVec3f));
    v.push(entry("children", FieldType::MFNode));
    proof {
        assert(raw_fields_view(v@) =~= fields_transform_spec());
    }
    v
}

pub open spec fn fields_billboard_spec() -> Seq<RawField> {
    seq![("children"@, FieldTypeV::MFNode)]
}

fn fields_billboard() -> (r: Vec<(String, FieldType)>)
    ensures
        raw_fields_view(r@) == fields_billboard_spec(),
{
    let mut v: Vec<(String, FieldType)> = Vec::new();
    v.push(entry("children", FieldType::MFNode));
    proof {
        assert(raw_fields_view(v@) =~= fields_billboard_spec());
    }
    v
}

pub open spec fn fields_shape_spec() -> Seq<RawField> {
    seq![("appearance"@, FieldTypeV::SFNode), ("geometry"@, FieldTypeV::SFNode), ("cast_shadows"@, FieldTypeV::SFBool), ("is_pickable"@, FieldTypeV::SFBool)]
}

fn fields_shape() -> (r: Vec<(String, FieldType)>)
    ensures
        raw_fields_view(r@) == fields_shape_spec(),
{
    let mut v: Vec<(String, FieldType)> = Vec::new();
    v.push(entry("appearance", FieldType::SFNode));
    v.push(entry("geometry", FieldType::SFNode));
    v.push(entry("cast_shadows", FieldType::SFBool));
    v.push(entry("is_pickable", FieldType::SFBool));
    proof {
        assert(raw_fields_view(v@) =~= fields_shape_spec());
    }
    v
}

pub open spec fn fields_appearance_spec() -> Seq<RawField> {
    seq![("material"@, FieldTypeV::SFNode), ("texture"@, FieldTypeV::SFNode), ("texture_transform"@, FieldTypeV::SFNode)]
}

fn fields_appearance() -> (r: Vec<(String, FieldType)>)
    ensures
        raw_fields_view(r@) == fields_appearance_spec(),
{
    let mut v: Vec<(String, FieldType)> = Vec::new();
    v.push(entry("material", FieldType::SFNode));
    v.push(entry("texture", FieldType::SFNode));
    v.push(entry("texture_transform", FieldType::SFNode));
    proof {
        assert(raw_fields_view(v@) =~= fields_appearance_spec());
    }
    v
}

pub open spec fn fields_pbr_appearance_spec() -> Seq<RawField> {
    seq![("base_color"@, FieldTypeV::SFColor), ("base_color_map"@, FieldTypeV::SFNode), ("transparency"@, FieldTypeV::SFFloat), ("roughness"@, FieldTypeV::SFFloat), ("roughness_map"@, FieldTypeV::SFNode), ("metalness"@, FieldTypeV::SFFloat), ("metalness_map"@, FieldTypeV::SFNode), ("ibl_strength"@, FieldTypeV::SFFloat), ("normal_map"@, FieldTypeV::SFNode), ("normal_map_factor"@, FieldTypeV::SFFloat), ("occlusion_map"@, FieldTypeV::SFNode), ("occlusion_map_strength"@, FieldTypeV::SFFloat), ("emissive_color"@, FieldTypeV::SFColor), ("emissive_color_map"@, FieldTypeV::SFNode), ("emissive_intensity"@, FieldTypeV::SFFloat), ("texture_transform"@, FieldTypeV::SFNode)]
}

fn fields_pbr_appearance() -> (r: Vec<(String, FieldType)>)
    ensures
        raw_fields_view(r@) == fields_pbr_appearance_spec(),
{
    let mut v: Vec<(String, FieldType)> = Vec::new();
    v.push(entry("base_color", FieldType::SFColor));
    v.push(entry("base_color_map", FieldType::SFNode));
    v.push(entry("transparency", FieldType::SFFloat));
    v.push(entry("roughness", FieldType::SFFloat));
    v.push(entry("roughness_map", FieldType::SFNode));
    v.push(entry("metalness", FieldType::SFFloat));
    v.push(entry("metalness_map", FieldType::SFNode));
    v.push(entry("ibl_strength", FieldType::SFFloat));
    v.push(entry("normal_map", FieldType::SFNode));
    v.push(entry("normal_map_factor", FieldType::SFFloat));
    v.push(entry("occlusion_map", FieldType::SFNode));
    v.push(entry("occlusion_map_strength", FieldType::SFFloat));
    v.push(entry("emissive_color", FieldType::SFColor));
    v.push(entry("emissive_color_map", FieldType::SFNode));
    v.push(entry("emissive_intensity", FieldType::SFFloat));
    v.push(entry("texture_transform", FieldType::SFNode));
    proof {
        assert(raw_fields_view(v@) =~= fields_pbr_appearance_spec());
    }
    v
}

pub open spec fn fields_material_spec() -> Seq<RawField> {
    seq![("ambient_intensity"@, FieldTypeV::SFFloat), ("diffuse_color"@, FieldTypeV::SFColor), ("emissive_color"@, FieldTypeV::SFColor), ("shininess"@, FieldTypeV::SFFloat), ("specular_color"@, FieldTypeV::SFColor), ("transparency"@, FieldTypeV::SFFloat)]
}

fn fields_material() -> (r: Vec<(String, FieldType)>)
    ensures
        raw_fields_view(r@) == fields_material_spec(),
{
    let mut v: Vec<(String, FieldType)> = Vec::new();
    v.push(entry("ambient_intensity", FieldType::SFFloat));
    v.push(entry("diffuse_color", FieldType::SFColor));
    v.push(entry("emissive_color", FieldType::SFColor));
    v.push(entry("shininess", FieldType::SFFloat));
    v.push(entry("specular_color", FieldType::SFColor));
    v.push(entry("transparency", FieldType::SFFloat));
    proof {
        assert(raw_fields_view(v@) =~= fields_material_spec());
    }
    v
}

pub open spec fn fields_image_texture_spec() -> Seq<RawField> {
    seq![("url"@, FieldTypeV::MFString), ("repeat_s"@, FieldTypeV::SFBool), ("repeat_t"@, FieldTypeV::SFBool), ("filtering"@, FieldTypeV::SFInt32)]
}

fn fields_image_texture() -> (r: Vec<(String, FieldType)>)
    ensures
        raw_fields_view(r@) == fields_image_texture_spec(),
{
    let mut v: Vec<(String, FieldType)> = Vec::new();
    v.push(entry("url", FieldType::MFString));
    v.push(entry("repeat_s", FieldType::SFBool));
    v.push(entry("repeat_t", FieldType::SFBool));
    v.push(entry("filtering", FieldType::SFInt32));
    proof {
        assert(raw_fields_view(v@) =~= fields_image_texture_spec());
    }
    v
}

pub open spec fn fields_texture_transform_spec() -> Seq<RawField> {
    seq![("center"@, FieldTypeV::SFVec2f), ("rotation"@, FieldTypeV::SFFloat), ("scale"@, FieldTypeV::SFVec2f), ("translation"@, FieldTypeV::SFVec2f)]
}

fn fields_texture_transform() -> (r: Vec<(String, FieldType)>)
    ensures
        raw_fields_view(r@) == fields_texture_transform_spec(),
{
    let mut v: Vec<(String, FieldType)> = Vec::new();
    v.push(entry("center", FieldType::SFVec2f));
    v.push(entry("rotation", FieldType::SFFloat));
    v.push(entry("scale", FieldType::SFVec2f));
    v.push(entry("translation", FieldType::SFVec2f));
    proof {
        assert(raw_fields_view(v@) =~= fields_texture_transform_spec());
    }
    v
}

pub open spec fn fields_box_spec() -> Seq<RawField> {
    seq![("size"@, FieldTypeV::SFVec3f)]
}

fn fields_box() -> (r: Vec<(String, FieldType)>)
    ensures
        raw_fields_view(r@) == fields_box_spec(),
{
    let mut v: Vec<(String, FieldType)> = Vec::new();
    v.push(entry("size", FieldType::SFVec3f));
    proof {
        assert(raw_fields_view(v@) =~= fields_box_spec());
    }
    v
}

pub open spec fn fields_sphere_spec() -> Seq<RawField> {
    seq![("radius"@, FieldTypeV::SFFloat), ("subdivision"@, FieldTypeV::SFInt32), ("ico"@, FieldTypeV::SFBool)]
}

fn fields_sphere() -> (r: Vec<(String, FieldType)>)
    ensures
        raw_fields_view(r@) == fields_sphere_spec(),
{
    let mut v: Vec<(String, FieldType)> = Vec::new();
    v.push(entry("radius", FieldType::SFFloat));
    v.push(entry("subdivision", FieldType::SFInt32));
    v.push(entry("ico", FieldType::SFBool));
    proof {
        assert(raw_fields_view(v@) =~= fields_sphere_spec());
    }
    v
}

pub open spec fn fields_capsule_spec() -> Seq<RawField> {
    seq![("bottom"@, FieldTypeV::SFBool), ("height"@, FieldTypeV::SFFloat), ("radius"@, FieldTypeV::SFFloat), ("side"@, FieldTypeV::SFBool), ("top"@, FieldTypeV::SFBool), ("subdivision"@, FieldTypeV::SFInt32)]
}

fn fields_capsule() -> (r: Vec<(String, FieldType)>)
    ensures
        raw_fields_view(r@) == fields_capsule_spec(),
{
    let mut v: Vec<(String, FieldType)> = Vec::new();
    v.push(entry("bottom", FieldType::SFBool));
    v.push(entry("height", FieldType::SFFloat));
    v.push(entry("radius", FieldType::SFFloat));
    v.push(entry("side", FieldType::SFBool));
    v.push(entry("top", FieldType::SFBool));
    v.push(entry("subdivision", FieldType::SFInt32));
    proof {
        assert(raw_fields_view(v@) =~= fields_capsule_spec());
    }
    v
}

pub open spec fn fields_cylinder_spec() -> Seq<RawField> {
    seq![("bottom"@, FieldTypeV::SFBool), ("height"@, FieldTypeV::SFFloat), ("radius"@, FieldTypeV::SFFloat), ("side"@, FieldTypeV::SFBool), ("top"@, FieldTypeV::SFBool), ("subdivision"@, FieldTypeV::SFInt32)]
}

fn fields_cylinder() -> (r: Vec<(String, FieldType)>)
    ensures
        raw_fields_view(r@) == fields_cylinder_spec(),
{
    let mut v: Vec<(String, FieldType)> = Vec::new();
    v.push(entry("bottom", FieldType::SFBool));
    v.push(entry("height", FieldType::SFFloat));
    v.push(entry("radius", FieldType::SFFloat));
    v.push(entry("side", FieldType::SFBool));
    v.push(entry("top", FieldType::SFBool));
    v.push(entry("subdivision", FieldType::SFInt32));
    proof {
        assert(raw_fields_view(v@) =~= fields_cylinder_spec());
    }
    v
}

pub open spec fn fields_plane_spec() -> Seq<RawField> {
    seq![("size"@, FieldTypeV::SFVec2f)]
}

fn fields_plane() -> (r: Vec<(String, FieldType)>)
    ensures
        raw_fields_view(r@) == fields_plane_spec(),
{
    let mut v: Vec<(String, FieldType)> = Vec::new();
    v.push(entry("size", FieldType::SFVec2f));
    proof {
        assert(raw_fields_view(v@) =~= fields_plane_spec());
    }
    v
}

pub open spec fn fields_cone_spec() -> Seq<RawField> {
    seq![("bottom_radius"@, FieldTypeV::SFFloat), ("height"@, FieldTypeV::SFFloat), ("side"@, FieldTypeV::SFBool), ("bottom"@, FieldTypeV::SFBool), ("subdivision"@, FieldTypeV::SFInt32)]
}

fn fields_cone() -> (r: Vec<(String, FieldType)>)
    ensures
        raw_fields_view(r@) == fields_cone_spec(),
{
    let mut v: Vec<(String, FieldType)> = Vec::new();
    v.push(entry("bottom_radius", FieldType::SFFloat));
    v.push(entry("height", FieldType::SFFloat));
    v.push(entry("side", FieldType::SFBool));
    v.push(entry("bottom", FieldType::SFBool));
    v.push(entry("subdivision", FieldType::SFInt32));
    proof {
        assert(raw_fields_view(v@) =~= fields_cone_spec());
    }
    v
}

pub open spec fn fields_elevation_grid_spec() -> Seq<RawField> {
    seq![("height"@, FieldTypeV::MFFloat), ("x_dimension"@, FieldTypeV::SFInt32), ("x_spacing"@, FieldTypeV::SFFloat), ("z_dimension"@, FieldTypeV::SFInt32), ("z_spacing"@, FieldTypeV::SFFloat), ("thickness"@, FieldTypeV::SFFloat)]
}

fn fields_elevation_grid() -> (r: Vec<(String, FieldType)>)
    ensures
        raw_fields_view(r@) == fields_elevation_grid_spec(),
{
    let mut v: Vec<(String, FieldType)> = Vec::new();
    v.push(entry("height", FieldType::MFFloat));
    v.push(entry("x_dimension", FieldType::SFInt32));
    v.push(entry("x_spacing", FieldType::SFFloat));
    v.push(entry("z_dimension", FieldType::SFInt32));
    v.push(entry("z_spacing", FieldType::SFFloat));
    v.push(entry("thickness", FieldType::SFFloat));
    proof {
        assert(raw_fields_view(v@) =~= fields_elevation_grid_spec());
    }
    v
}

pub open spec fn fields_indexed_face_set_spec() -> Seq<RawField> {
    seq![("coord"@, FieldTypeV::SFNode), ("normal"@, FieldTypeV::SFNode), ("tex_coord"@, FieldTypeV::SFNode), ("solid"@, FieldTypeV::SFBool), ("convex"@, FieldTypeV::SFBool), ("coord_index"@, FieldTypeV::MFInt32), ("normal_index"@, FieldTypeV::MFInt32), ("tex_coord_index"@, FieldTypeV::MFInt32), ("crease_angle"@, FieldTypeV::SFFloat)]
}

fn fields_indexed_face_set() -> (r: Vec<(String, FieldType)>)
    ensures
        raw_fields_view(r@) == fields_indexed_face_set_spec(),
{
    let mut v: Vec<(String, FieldType)> = Vec::new();
    v.push(entry("coord", FieldType::SFNode));
    v.push(entry("normal", FieldType::SFNode));
    v.push(entry("tex_coord", FieldType::SFNode));
    v.push(entry("solid", FieldType::SFBool));
    v.push(entry("convex", FieldType::SFBool));
    v.push(entry("coord_index", FieldType::MFInt32));
    v.push(entry("normal_index", FieldType::MFInt32));
    v.push(entry("tex_coord_index", FieldType::MFInt32));
    v.push(entry("crease_angle", FieldType::SFFloat));
    proof {
        assert(raw_fields_view(v@) =~= fields_indexed_face_set_spec());
    }
    v
}

pub open spec fn fields_indexed_line_set_spec() -> Seq<RawField> {
    seq![("coord"@, FieldTypeV::SFNode), ("coord_index"@, FieldTypeV::MFInt32)]
}

fn fields_indexed_line_set() -> (r: Vec<(String, FieldType)>)
    ensures
        raw_fields_view(r@) == fields_indexed_line_set_spec(),
{
    let mut v: Vec<(String, FieldType)> = Vec::new();
    v.push(entry("coord", FieldType::SFNode));
    v.push(entry("coord_index", FieldType::MFInt32));
    proof {
        assert(raw_fields_view(v@) =~= fields_indexed_line_set_spec());
    }
    v
}

pub open spec fn fields_point_set_spec() -> Seq<RawField> {
    seq![("coord"@, FieldTypeV::SFNode), ("color"@, FieldTypeV::SFNode)]
}

fn fields_point_set() -> (r: Vec<(String, FieldType)>)
    ensures
        raw_fields_view(r@) == fields_point_set_spec(),
{
    let mut v: Vec<(String, FieldType)> = Vec::new();
    v.push(entry("coord", FieldType::SFNode));
    v.push(entry("color", FieldType::SFNode));
    proof {
        assert(raw_fields_view(v@) =~= fields_point_set_spec());
    }
    v
}

pub open spec fn fields_mesh_spec() -> Seq<RawField> {
    seq![("url"@, FieldTypeV::MFString), ("material_index"@, FieldTypeV::SFInt32)]
}

fn fields_mesh() -> (r: Vec<(String, FieldType)>)
    ensures
        raw_fields_view(r@) == fields_mesh_spec(),
{
    let mut v: Vec<(String, FieldType)> = Vec::new();
    v.push(entry("url", FieldType::MFString));
    v.push(entry("material_index", FieldType::SFInt32));
    proof {
        assert(raw_fields_view(v@) =~= fields_mesh_spec());
    }
    v
}

pub open spec fn fields_cad_shape_spec() -> Seq<RawField> {
    seq![("url"@, FieldTypeV::MFString), ("ccw"@, FieldTypeV::SFBool), ("cast_shadows"@, FieldTypeV::SFBool), ("is_pickable"@, FieldTypeV::SFBool)]
}

fn fields_cad_shape() -> (r: Vec<(String, FieldType)>)
    ensures
        raw_fields_view(r@) == fields_cad_shape_spec(),
{
    let mut v: Vec<(String, FieldType)> = Vec::new();
    v.push(entry("url", FieldType::MFString));
    v.push(entry("ccw", FieldType::SFBool));
    v.push(entry("cast_shadows", FieldType::SFBool));
    v.push(entry("is_pickable", FieldType::SFBool));
    proof {
        assert(raw_fields_view(v@) =~= fields_cad_shape_spec());
    }
    v
}

pub open spec fn fields_robot_spec() -> Seq<RawField> {
    seq![("translation"@, FieldTypeV::SFVec3f), ("rotation"@, FieldTypeV::SFRotation), ("children"@, FieldTypeV::MFNode), ("name"@, FieldTypeV::SFString), ("model"@, FieldTypeV::SFString), ("description"@, FieldTypeV::SFString), ("contactMaterial"@, FieldTypeV::SFString), ("immersionProperties"@, FieldTypeV::MFNode), ("boundingObject"@, FieldTypeV::SFNode), ("physics"@, FieldTypeV::SFNode), ("locked"@, FieldTypeV::SFBool), ("radarCrossSection"@, FieldTypeV::SFFloat), ("recognitionColors"@, FieldTypeV::MFColor), ("linearVelocity"@, FieldTypeV::SFVec3f), ("angularVelocity"@, FieldTypeV::SFVec3f), ("controller"@, FieldTypeV::SFString), ("controller_args"@, FieldTypeV::MFString), ("custom_data"@, FieldTypeV::SFString), ("supervisor"@, FieldTypeV::SFBool), ("synchronization"@, FieldTypeV::SFBool), ("battery"@, FieldTypeV::MFFloat), ("cpu_consumption"@, FieldTypeV::SFFloat), ("self_collision"@, FieldTypeV::SFBool), ("window"@, FieldTypeV::SFString), ("remote_control"@, FieldTypeV::SFString)]
}

fn fields_robot() -> (r: Vec<(String, FieldType)>)
    ensures
        raw_fields_view(r@) == fields_robot_spec(),
{
    let mut v: Vec<(String, FieldType)> = Vec::new();
    v.push(entry("translation", FieldType::SFVec3f));
    v.push(entry("rotation", FieldType::SFRotation));
    v.push(entry("children", FieldType::MFNode));
    v.push(entry("name", FieldType::SFString));
    v.push(entry("model", FieldType::SFString));
    v.push(entry("description", FieldType::SFString));
    v.push(entry("contactMaterial", FieldType::SFString));
    v.push(entry("immersionProperties", FieldType::MFNode));
    v.push(entry("boundingObject", FieldType::SFNode));
    v.push(entry("physics", FieldType::SFNode));
    v.push(entry("locked", FieldType::SFBool));
    v.push(entry("radarCrossSection", FieldType::SFFloat));
    v.push(entry("recognitionColors", FieldType::MFColor));
    v.push(entry("linearVelocity", FieldType::SFVec3f));
    v.push(entry("angularVelocity", FieldType::SFVec3f));
    v.push(entry("controller", FieldType::SFString));
    v.push(entry("controller_args", FieldType::MFString));
    v.push(entry("custom_data", FieldType::SFString));
    v.push(entry("supervisor", FieldType::SFBool));
    v.push(entry("synchronization", FieldType::SFBool));
    v.push(entry("battery", FieldType::MFFloat));
    v.push(entry("cpu_consumption", FieldType::SFFloat));
    v.push(entry("self_collision", FieldType::SFBool));
    v.push(entry("window", FieldType::SFString));
    v.push(entry("remote_control", FieldType::SFString));
    proof {
        assert(raw_fields_view(v@) =~= fields_robot_spec());
    }
    v
}

pub open spec fn fields_solid_spec() -> Seq<RawField> {
    seq![("translation"@, FieldTypeV::SFVec3f), ("rotation"@, FieldTypeV::SFRotation), ("children"@, FieldTypeV::MFNode), ("name"@, FieldTypeV::SFString), ("model"@, FieldTypeV::SFString), ("description"@, FieldTypeV::SFString), ("contactMaterial"@, FieldTypeV::SFString), ("immersionProperties"@, FieldTypeV::MFNode), ("boundingObject"@, FieldTypeV::SFNode), ("physics"@, FieldTypeV::SFNode), ("locked"@, FieldTypeV::SFBool), ("radarCrossSection"@, FieldTypeV::SFFloat), ("recognitionColors"@, FieldTypeV::MFColor), ("linearVelocity"@, FieldTypeV::SFVec3f), ("angularVelocity"@, FieldTypeV::SFVec3f)]
}

fn fields_solid() -> (r: Vec<(String, FieldType)>)
    ensures
        raw_fields_view(r@) == fields_solid_spec(),
{
    let mut v: Vec<(String, FieldType)> = Vec::new();
    v.push(entry("translation", FieldType::SFVec3f));
    v.push(entry("rotation", FieldType::SFRotation));
    v.push(entry("children", FieldType::MFNode));
    v.push(entry("name", FieldType::SFString));
    v.push(entry("model", FieldType::SFString));
    v.push(entry("description", FieldType::SFString));
    v.push(entry("contactMaterial", FieldType::SFString));
    v.push(entry("immersionProperties", FieldType::MFNode));
    v.push(entry("boundingObject", FieldType::SFNode));
    v.push(entry("physics", FieldType::SFNode));
    v.push(entry("locked", FieldType::SFBool));
    v.push(entry("radarCrossSection", FieldType::SFFloat));
    v.push(entry("recognitionColors", FieldType::MFColor));
    v.push(entry("linearVelocity", FieldType::SFVec3f));
    v.push(entry("angularVelocity", FieldType::SFVec3f));
    proof {
        assert(raw_fields_view(v@) =~= fields_solid_spec());
    }
    v
}

pub open spec fn fields_fluid_spec() -> Seq<RawField> {
    seq![("translation"@, FieldTypeV::SFVec3f), ("rotation"@, FieldTypeV::SFRotation), ("children"@, FieldTypeV::MFNode), ("name"@, FieldTypeV::SFString), ("model"@, FieldTypeV::SFString), ("description"@, FieldTypeV::SFString), ("contactMaterial"@, FieldTypeV::SFString), ("immersionProperties"@, FieldTypeV::MFNode), ("boundingObject"@, FieldTypeV::SFNode), ("physics"@, FieldTypeV::SFNode), ("locked"@, FieldTypeV::SFBool), ("radarCrossSection"@, FieldTypeV::SFFloat), ("recognitionColors"@, FieldTypeV::MFColor), ("linearVelocity"@, FieldTypeV::SFVec3f), ("angularVelocity"@, FieldTypeV::SFVec3f), ("density"@, FieldTypeV::SFFloat), ("viscosity"@, FieldTypeV::SFFloat), ("stream_velocity"@, FieldTypeV::SFVec3f)]
}

fn fields_fluid() -> (r: Vec<(String, FieldType)>)
    ensures
        raw_fields_view(r@) == fields_fluid_spec(),
{
    let mut v: Vec<(String, FieldType)> = Vec::new();
    v.push(entry("translation", FieldType::SFVec3f));
    v.push(entry("rotation", FieldType::SFRotation));
    v.push(entry("children", FieldType::MFNode));
    v.push(entry("name", FieldType::SFString));
    v.push(entry("model", FieldType::SFString));
    v.push(entry("description", FieldType::SFString));
    v.push(entry("contactMaterial", FieldType::SFString));
    v.push(entry("immersionProperties", FieldType::MFNode));
    v.push(entry("boundingObject", FieldType::SFNode));
    v.push(entry("physics", FieldType::SFNode));
    v.push(entry("locked", FieldType::SFBool));
    v.push(entry("radarCrossSection", FieldType::SFFloat));
    v.push(entry("recognitionColors", FieldType::MFColor));
    v.push(entry("linearVelocity", FieldType::SFVec3f));
    v.push(entry("angularVelocity", FieldType::SFVec3f));
    v.push(entry("density", FieldType::SFFloat));
    v.push(entry("viscosity", FieldType::SFFloat));
    v.push(entry("stream_velocity", FieldType::SFVec3f));
    proof {
        assert(raw_fields_view(v@) =~= fields_fluid_spec());
    }
    v
}

pub open spec fn fields_accelerometer_spec() -> Seq<RawField> {
    seq![("translation"@, FieldTypeV::SFVec3f), ("rotation"@, FieldTypeV::SFRotation), ("children"@, FieldTypeV::MFNode), ("name"@, FieldTypeV::SFString), ("model"@, FieldTypeV::SFString), ("description"@, FieldTypeV::SFString), ("contactMaterial"@, FieldTypeV::SFString), ("immersionProperties"@, FieldTypeV::MFNode), ("boundingObject"@, FieldTypeV::SFNode), ("physics"@, FieldTypeV::SFNode), ("locked"@, FieldTypeV::SFBool), ("radarCrossSection"@, FieldTypeV::SFFloat), ("recognitionColors"@, FieldTypeV::MFColor), ("linearVelocity"@, FieldTypeV::SFVec3f), ("angularVelocity"@, FieldTypeV::SFVec3f), ("lookup_table"@, FieldTypeV::MFVec3f), ("x_axis"@, FieldTypeV::SFBool), ("y_axis"@, FieldTypeV::SFBool), ("z_axis"@, FieldTypeV::SFBool), ("resolution"@, FieldTypeV::SFFloat)]
}

fn fields_accelerometer() -> (r: Vec<(String, FieldType)>)
    ensures
        raw_fields_view(r@) == fields_accelerometer_spec(),
{
    let mut v: Vec<(String, FieldType)> = Vec::new();
    v.push(entry("translation", FieldType::SFVec3f));
    v.push(entry("rotation", FieldType::SFRotation));
    v.push(entry("children", FieldType::MFNode));
    v.push(entry("name", FieldType::SFString));
    v.push(entry("model", FieldType::SFString));
    v.push(entry("description", FieldType::SFString));
    v.push(entry("contactMaterial", FieldType::SFString));
    v.push(entry("immersionProperties", FieldType::MFNode));
    v.push(entry("boundingObject", FieldType::SFNode));
    v.push(entry("physics", FieldType::SFNode));
    v.push(entry("locked", FieldType::SFBool));
    v.push(entry("radarCrossSection", FieldType::SFFloat));
    v.push(entry("recognitionColors", FieldType::MFColor));
    v.push(entry("linearVelocity", FieldType::SFVec3f));
    v.push(entry("angularVelocity", FieldType::SFVec3f));
    v.push(entry("lookup_table", FieldType::MFVec3f));
    v.push(entry("x_axis", FieldType::SFBool));
    v.push(entry("y_axis", FieldType::SFBool));
    v.push(entry("z_axis", FieldType::SFBool));
    v.push(entry("resolution", FieldType::SFFloat));
    proof {
        assert(raw_fields_view(v@) =~= fields_accelerometer_spec());
    }
    v
}

pub open spec fn fields_altimeter_spec() -> Seq<RawField> {
    seq![("translation"@, FieldTypeV::SFVec3f), ("rotation"@, FieldTypeV::SFRotation), ("children"@, FieldTypeV::MFNode), ("name"@, FieldTypeV::SFString), ("model"@, FieldTypeV::SFString), ("description"@, FieldTypeV::SFString), ("contactMaterial"@, FieldTypeV::SFString), ("immersionProperties"@, FieldTypeV::MFNode), ("boundingObject"@, FieldTypeV::SFNode), ("physics"@, FieldTypeV::SFNode), ("locked"@, FieldTypeV::SFBool), ("radarCrossSection"@, FieldTypeV::SFFloat), ("recognitionColors"@, FieldTypeV::MFColor), ("linearVelocity"@, FieldTypeV::SFVec3f), ("angularVelocity"@, FieldTypeV::SFVec3f), ("accuracy"@, FieldTypeV::SFFloat), ("resolution"@, FieldTypeV::SFFloat)]
}

fn fields_altimeter() -> (r: Vec<(String, FieldType)>)
    ensures
        raw_fields_view(r@) == fields_altimeter_spec(),
{
    let mut v: Vec<(String, FieldType)> = Vec::new();
    v.push(entry("translation", FieldType::SFVec3f));
    v.push(entry("rotation", FieldType::SFRotation));
    v.push(entry("children", FieldType::MFNode));
    v.push(entry("name", FieldType::SFString));
    v.push(entry("model", FieldType::SFString));
    v.push(entry("description", FieldType::SFString));
    v.push(entry("contactMaterial", FieldType::SFString));
    v.push(entry("immersionProperties", FieldType::MFNode));
    v.push(entry("boundingObject", FieldType::SFNode));
    v.push(entry("physics", FieldType::SFNode));
    v.push(entry("locked", FieldType::SFBool));
    v.push(entry("radarCrossSection", FieldType::SFFloat));
    v.push(entry("recognitionColors", FieldType::MFColor));
    v.push(entry("linearVelocity", FieldType::SFVec3f));
    v.push(entry("angularVelocity", FieldType::SFVec3f));
    v.push(entry("accuracy", FieldType::SFFloat));
    v.push(entry("resolution", FieldType::SFFloat));
    proof {
        assert(raw_fields_view(v@) =~= fields_altimeter_spec());
    }
    v
}

pub open spec fn fields_camera_spec() -> Seq<RawField> {
    seq![("translation"@, FieldTypeV::SFVec3f), ("rotation"@, FieldTypeV::SFRotation), ("children"@, FieldTypeV::MFNode), ("name"@, FieldTypeV::SFString), ("model"@, FieldTypeV::SFString), ("description"@, FieldTypeV::SFString), ("contactMaterial"@, FieldTypeV::SFString), ("immersionProperties"@, FieldTypeV::MFNode), ("boundingObject"@, FieldTypeV::SFNode), ("physics"@, FieldTypeV::SFNode), ("locked"@, FieldTypeV::SFBool), ("radarCrossSection"@, FieldTypeV::SFFloat), ("recognitionColors"@, FieldTypeV::MFColor), ("linearVelocity"@, FieldTypeV::SFVec3f), ("angularVelocity"@, FieldTypeV::SFVec3f), ("field_of_view"@, FieldTypeV::SFFloat), ("width"@, FieldTypeV::SFInt32), ("height"@, FieldTypeV::SFInt32), ("projection"@, FieldTypeV::SFString), ("near"@, FieldTypeV::SFFloat), ("far"@, FieldTypeV::SFFloat), ("exposure"@, FieldTypeV::SFFloat), ("anti_aliasing"@, FieldTypeV::SFBool), ("ambient_occlusion_radius"@, FieldTypeV::SFFloat), ("bloom_threshold"@, FieldTypeV::SFFloat), ("motion_blur"@, FieldTypeV::SFFloat), ("noise"@, FieldTypeV::SFFloat), ("noise_mask_url"@, FieldTypeV::SFString), ("lens"@, FieldTypeV::SFNode), ("focus"@, FieldTypeV::SFNode), ("zoom"@, FieldTypeV::SFNode), ("recognition"@, FieldTypeV::SFNode), ("lens_flare"@, FieldTypeV::SFNode)]
}

fn fields_camera() -> (r: Vec<(String, FieldType)>)
    ensures
        raw_fields_view(r@) == fields_camera_spec(),
{
    let mut v: Vec<(String, FieldType)> = Vec::new();
    v.push(entry("translation", FieldType::SFVec3f));
    v.push(entry("rotation", FieldType::SFRotation));
    v.push(entry("children", FieldType::MFNode));
    v.push(entry("name", FieldType::SFString));
    v.push(entry("model", FieldType::SFString));
    v.push(entry("description", FieldType::SFString));
    v.push(entry("contactMaterial", FieldType::SFString));
    v.push(entry("immersionProperties", FieldType::MFNode));
    v.push(entry("boundingObject", FieldType::SFNode));
    v.push(entry("physics", FieldType::SFNode));
    v.push(entry("locked", FieldType::SFBool));
    v.push(entry("radarCrossSection", FieldType::SFFloat));
    v.push(entry("recognitionColors", FieldType::MFColor));
    v.push(entry("linearVelocity", FieldType::SFVec3f));
    v.push(entry("angularVelocity", FieldType::SFVec3f));
    v.push(entry("field_of_view", FieldType::SFFloat));
    v.push(entry("width", FieldType::SFInt32));
    v.push(entry("height", FieldType::SFInt32));
    v.push(entry("projection", FieldType::SFString));
    v.push(entry("near", FieldType::SFFloat));
    v.push(entry("far", FieldType::SFFloat));
    v.push(entry("exposure", FieldType::SFFloat));
    v.push(entry("anti_aliasing", FieldType::SFBool));
    v.push(entry("ambient_occlusion_radius", FieldType::SFFloat));
    v.push(entry("bloom_threshold", FieldType::SFFloat));
    v.push(entry("motion_blur", FieldType::SFFloat));
    v.push(entry("noise", FieldType::SFFloat));
    v.push(entry("noise_mask_url", FieldType::SFString));
    v.push(entry("lens", FieldType::SFNode));
    v.push(entry("focus", FieldType::SFNode));
    v.push(entry("zoom", FieldType::SFNode));
    v.push(entry("recognition", FieldType::SFNode));
    v.push(entry("lens_flare", FieldType::SFNode));
    proof {
        assert(raw_fields_view(v@) =~= fields_camera_spec());
    }
    v
}

pub open spec fn fields_compass_spec() -> Seq<RawField> {
    seq![("translation"@, FieldTypeV::SFVec3f), ("rotation"@, FieldTypeV::SFRotation), ("children"@, FieldTypeV::MFNode), ("name"@, FieldTypeV::SFString), ("model"@, FieldTypeV::SFString), ("description"@, FieldTypeV::SFString), ("contactMaterial"@, FieldTypeV::SFString), ("immersionProperties"@, FieldTypeV::MFNode), ("boundingObject"@, FieldTypeV::SFNode), ("physics"@, FieldTypeV::SFNode), ("locked"@, FieldTypeV::SFBool), ("radarCrossSection"@, FieldTypeV::SFFloat), ("recognitionColors"@, FieldTypeV::MFColor), ("linearVelocity"@, FieldTypeV::SFVec3f), ("angularVelocity"@, FieldTypeV::SFVec3f), ("lookup_table"@, FieldTypeV::MFVec3f), ("x_axis"@, FieldTypeV::SFBool), ("y_axis"@, FieldTypeV::SFBool), ("z_axis"@, FieldTypeV::SFBool), ("resolution"@, FieldTypeV::SFFloat)]
}

fn fields_compass() -> (r: Vec<(String, FieldType)>)
    ensures
        raw_fields_view(r@) == fields_compass_spec(),
{
    let mut v: Vec<(String, FieldType)> = Vec::new();
    v.push(entry("translation", FieldType::SFVec3f));
    v.push(entry("rotation", FieldType::SFRotation));
    v.push(entry("children", FieldType::MFNode));
    v.push(entry("name", FieldType::SFString));
    v.push(entry("model", FieldType::SFString));
    v.push(entry("description", FieldType::SFString));
    v.push(entry("contactMaterial", FieldType::SFString));
    v.push(entry("immersionProperties", FieldType::MFNode));
    v.push(entry("boundingObject", FieldType::SFNode));
    v.push(entry("physics", FieldType::SFNode));
    v.push(entry("locked", FieldType::SFBool));
    v.push(entry("radarCrossSection", FieldType::SFFloat));
    v.push(entry("recognitionColors", FieldType::MFColor));
    v.push(entry("linearVelocity", FieldType::SFVec3f));
    v.push(entry("angularVelocity", FieldType::SFVec3f));
    v.push(entry("lookup_table", FieldType::MFVec3f));
    v.push(entry("x_axis", FieldType::SFBool));
    v.push(entry("y_axis", FieldType::SFBool));
    v.push(entry("z_axis", FieldType::SFBool));
    v.push(entry("resolution", FieldType::SFFloat));
    proof {
        assert(raw_fields_view(v@) =~= fields_compass_spec());
    }
    v
}

pub open spec fn fields_distance_sensor_spec() -> Seq<RawField> {
    seq![("translation"@, FieldTypeV::SFVec3f), ("rotation"@, FieldTypeV::SFRotation), ("children"@, FieldTypeV::MFNode), ("name"@, FieldTypeV::SFString), ("model"@, FieldTypeV::SFString), ("description"@, FieldTypeV::SFString), ("contactMaterial"@, FieldTypeV::SFString), ("immersionProperties"@, FieldTypeV::MFNode), ("boundingObject"@, FieldTypeV::SFNode), ("physics"@, FieldTypeV::SFNode), ("locked"@, FieldTypeV::SFBool), ("radarCrossSection"@, FieldTypeV::SFFloat), ("recognitionColors"@, FieldTypeV::MFColor), ("linearVelocity"@, FieldTypeV::SFVec3f), ("angularVelocity"@, FieldTypeV::SFVec3f), ("lookup_table"@, FieldTypeV::MFVec3f), ("type"@, FieldTypeV::SFString), ("number_of_rays"@, FieldTypeV::SFInt32), ("aperture"@, FieldTypeV::SFFloat), ("gaussian_width"@, FieldTypeV::SFFloat), ("resolution"@, FieldTypeV::SFFloat), ("red_color_sensitivity"@, FieldTypeV::SFFloat)]
}

fn fields_distance_sensor() -> (r: Vec<(String, FieldType)>)
    ensures
        raw_fields_view(r@) == fields_distance_sensor_spec(),
{
    let mut v: Vec<(String, FieldType)> = Vec::new();
    v.push(entry("translation", FieldType::SFVec3f));
    v.push(entry("rotation", FieldType::SFRotation));
    v.push(entry("children", FieldType::MFNode));
    v.push(entry("name", FieldType::SFString));
    v.push(entry("model", FieldType::SFString));
    v.push(entry("description", FieldType::SFString));
    v.push(entry("contactMaterial", FieldType::SFString));
    v.push(entry("immersionProperties", FieldType::MFNode));
    v.push(entry("boundingObject", FieldType::SFNode));
    v.push(entry("physics", FieldType::SFNode));
    v.push(entry("locked", FieldType::SFBool));
    v.push(entry("radarCrossSection", FieldType::SFFloat));
    v.push(entry("recognitionColors", FieldType::MFColor));
    v.push(entry("linearVelocity", FieldType::SFVec3f));
    v.push(entry("angularVelocity", FieldType::SFVec3f));
    v.push(entry("lookup_table", FieldType::MFVec3f));
    v.push(entry("type", FieldType::SFString));
    v.push(entry("number_of_rays", FieldType::SFInt32));
    v.push(entry("aperture", FieldType::SFFloat));
    v.push(entry("gaussian_width", FieldType::SFFloat));
    v.push(entry("resolution", FieldType::SFFloat));
    v.push(entry("red_color_sensitivity", FieldType::SFFloat));
    proof {
        assert(raw_fields_view(v@) =~= fields_distance_sensor_spec());
    }
    v
}

pub open spec fn fields_gps_spec() -> Seq<RawField> {
    seq![("translation"@, FieldTypeV::SFVec3f), ("rotation"@, FieldTypeV::SFRotation), ("children"@, FieldTypeV::MFNode), ("name"@, FieldTypeV::SFString), ("model"@, FieldTypeV::SFString), ("description"@, FieldTypeV::SFString), ("contactMaterial"@, FieldTypeV::SFString), ("immersionProperties"@, FieldTypeV::MFNode), ("boundingObject"@, FieldTypeV::SFNode), ("physics"@, FieldTypeV::SFNode), ("locked"@, FieldTypeV::SFBool), ("radarCrossSection"@, FieldTypeV::SFFloat), ("recognitionColors"@, FieldTypeV::MFColor), ("linearVelocity"@, FieldTypeV::SFVec3f), ("angularVelocity"@, FieldTypeV::SFVec3f), ("type"@, FieldTypeV::SFString), ("accuracy"@, FieldTypeV::SFFloat), ("noise_correlation"@, FieldTypeV::SFFloat), ("resolution"@, FieldTypeV::SFFloat), ("speed_noise"@, FieldTypeV::SFFloat), ("speed_resolution"@, FieldTypeV::SFFloat)]
}

fn fields_gps() -> (r: Vec<(String, FieldType)>)
    ensures
        raw_fields_view(r@) == fields_gps_spec(),
{
    let mut v: Vec<(String, FieldType)> = Vec::new();
    v.push(entry("translation", FieldType::SFVec3f));
    v.push(entry("rotation", FieldType::SFRotation));
    v.push(entry("children", FieldType::MFNode));
    v.push(entry("name", FieldType::SFString));
    v.push(entry("model", FieldType::SFString));
    v.push(entry("description", FieldType::SFString));
    v.push(entry("contactMaterial", FieldType::SFString));
    v.push(entry("immersionProperties", FieldType::MFNode));
    v.push(entry("boundingObject", FieldType::SFNode));
    v.push(entry("physics", FieldType::SFNode));
    v.push(entry("locked", FieldType::SFBool));
    v.push(entry("radarCrossSection", FieldType::SFFloat));
    v.push(entry("recognitionColors", FieldType::MFColor));
    v.push(entry("linearVelocity", FieldType::SFVec3f));
    v.push(entry("angularVelocity", FieldType::SFVec3f));
    v.push(entry("type", FieldType::SFString));
    v.push(entry("accuracy", FieldType::SFFloat));
    v.push(entry("noise_correlation", FieldType::SFFloat));
    v.push(entry("resolution", FieldType::SFFloat));
    v.push(entry("speed_noise", FieldType::SFFloat));
    v.push(entry("speed_resolution", FieldType::SFFloat));
    proof {
        assert(raw_fields_view(v@) =~= fields_gps_spec());
    }
    v
}

pub open spec fn fields_gyro_spec() -> Seq<RawField> {
    seq![("translation"@, FieldTypeV::SFVec3f), ("rotation"@, FieldTypeV::SFRotation), ("children"@, FieldTypeV::MFNode), ("name"@, FieldTypeV::SFString), ("model"@, FieldTypeV::SFString), ("description"@, FieldTypeV::SFString), ("contactMaterial"@, FieldTypeV::SFString), ("immersionProperties"@, FieldTypeV::MFNode), ("boundingObject"@, FieldTypeV::SFNode), ("physics"@, FieldTypeV::SFNode), ("locked"@, FieldTypeV::SFBool), ("radarCrossSection"@, FieldTypeV::SFFloat), ("recognitionColors"@, FieldTypeV::MFColor), ("linearVelocity"@, FieldTypeV::SFVec3f), ("angularVelocity"@, FieldTypeV::SFVec3f), ("lookup_table"@, FieldTypeV::MFVec3f), ("x_axis"@, FieldTypeV::SFBool), ("y_axis"@, FieldTypeV::SFBool), ("z_axis"@, FieldTypeV::SFBool), ("resolution"@, FieldTypeV::SFFloat)]
}

fn fields_gyro() -> (r: Vec<(String, FieldType)>)
    ensures
        raw_fields_view(r@) == fields_gyro_spec(),
{
    let mut v: Vec<(String, FieldType)> = Vec::new();
    v.push(entry("translation", FieldType::SFVec3f));
    v.push(entry("rotation", FieldType::SFRotation));
    v.push(entry("children", FieldType::MFNode));
    v.push(entry("name", FieldType::SFString));
    v.push(entry("model", FieldType::SFString));
    v.push(entry("description", FieldType::SFString));
    v.push(entry("contactMaterial", FieldType::SFString));
    v.push(entry("immersionProperties", FieldType::MFNode));
    v.push(entry("boundingObject", FieldType::SFNode));
    v.push(entry("physics", FieldType::SFNode));
    v.push(entry("locked", FieldType::SFBool));
    v.push(entry("radarCrossSection", FieldType::SFFloat));
    v.push(entry("recognitionColors", FieldType::MFColor));
    v.push(entry("linearVelocity", FieldType::SFVec3f));
    v.push(entry("angularVelocity", FieldType::SFVec3f));
    v.push(entry("lookup_table", FieldType::MFVec3f));
    v.push(entry("x_axis", FieldType::SFBool));
    v.push(entry("y_axis", FieldType::SFBool));
    v.push(entry("z_axis", FieldType::SFBool));
    v.push(entry("resolution", FieldType::SFFloat));
    proof {
        assert(raw_fields_view(v@) =~= fields_gyro_spec());
    }
    v
}

pub open spec fn fields_inertial_unit_spec() -> Seq<RawField> {
    seq![("translation"@, FieldTypeV::SFVec3f), ("rotation"@, FieldTypeV::SFRotation), ("children"@, FieldTypeV::MFNode), ("name"@, FieldTypeV::SFString), ("model"@, FieldTypeV::SFString), ("description"@, FieldTypeV::SFString), ("contactMaterial"@, FieldTypeV::SFString), ("immersionProperties"@, FieldTypeV::MFNode), ("boundingObject"@, FieldTypeV::SFNode), ("physics"@, FieldTypeV::SFNode), ("locked"@, FieldTypeV::SFBool), ("radarCrossSection"@, FieldTypeV::SFFloat), ("recognitionColors"@, FieldTypeV::MFColor), ("linearVelocity"@, FieldTypeV::SFVec3f), ("angularVelocity"@, FieldTypeV::SFVec3f), ("x_axis"@, FieldTypeV::SFBool), ("y_axis"@, FieldTypeV::SFBool), ("z_axis"@, FieldTypeV::SFBool), ("resolution"@, FieldTypeV::SFFloat), ("noise"@, FieldTypeV::SFFloat)]
}

fn fields_inertial_unit() -> (r: Vec<(String, FieldType)>)
    ensures
        raw_fields_view(r@) == fields_inertial_unit_spec(),
{
    let mut v: Vec<(String, FieldType)> = Vec::new();
    v.push(entry("translation", FieldType::SFVec3f));
    v.push(entry("rotation", FieldType::SFRotation));
    v.push(entry("children", FieldType::MFNode));
    v.push(entry("name", FieldType::SFString));
    v.push(entry("model", FieldType::SFString));
    v.push(entry("description", FieldType::SFString));
    v.push(entry("contactMaterial", FieldType::SFString));
    v.push(entry("immersionProperties", FieldType::MFNode));
    v.push(entry("boundingObject", FieldType::SFNode));
    v.push(entry("physics", FieldType::SFNode));
    v.push(entry("locked", FieldType::SFBool));
    v.push(entry("radarCrossSection", FieldType::SFFloat));
    v.push(entry("recognitionColors", FieldType::MFColor));
    v.push(entry("linearVelocity", FieldType::SFVec3f));
    v.push(entry("angularVelocity", FieldType::SFVec3f));
    v.push(entry("x_axis", FieldType::SFBool));
    v.push(entry("y_axis", FieldType::SFBool));
    v.push(entry("z_axis", FieldType::SFBool));
    v.push(entry("resolution", FieldType::SFFloat));
    v.push(entry("noise", FieldType::SFFloat));
    proof {
        assert(raw_fields_view(v@) =~= fields_inertial_unit_spec());
    }
    v
}

pub open spec fn fields_lidar_spec() -> Seq<RawField> {
    seq![("translation"@, FieldTypeV::SFVec3f), ("rotation"@, FieldTypeV::SFRotation), ("children"@, FieldTypeV::MFNode), ("name"@, FieldTypeV::SFString), ("model"@, FieldTypeV::SFString), ("description"@, FieldTypeV::SFString), ("contactMaterial"@, FieldTypeV::SFString), ("immersionProperties"@, FieldTypeV::MFNode), ("boundingObject"@, FieldTypeV::SFNode), ("physics"@, FieldTypeV::SFNode), ("locked"@, FieldTypeV::SFBool), ("radarCrossSection"@, FieldTypeV::SFFloat), ("recognitionColors"@, FieldTypeV::MFColor), ("linearVelocity"@, FieldTypeV::SFVec3f), ("angularVelocity"@, FieldTypeV::SFVec3f), ("tilt_angle"@, FieldTypeV::SFFloat), ("horizontal_resolution"@, FieldTypeV::SFInt32), ("field_of_view"@, FieldTypeV::SFFloat), ("vertical_field_of_view"@, FieldTypeV::SFFloat), ("number_of_layers"@, FieldTypeV::SFInt32), ("near"@, FieldTypeV::SFFloat), ("min_range"@, FieldTypeV::SFFloat), ("max_range"@, FieldTypeV::SFFloat), ("type"@, FieldTypeV::SFString), ("projection"@, FieldTypeV::SFString), ("noise"@, FieldTypeV::SFFloat), ("resolution"@, FieldTypeV::SFFloat), ("default_frequency"@, FieldTypeV::SFFloat), ("min_frequency"@, FieldTypeV::SFFloat), ("max_frequency"@, FieldTypeV::SFFloat), ("rotating_head"@, FieldTypeV::SFNode)]
}

fn fields_lidar() -> (r: Vec<(String, FieldType)>)
    ensures
        raw_fields_view(r@) == fields_lidar_spec(),
{
    let mut v: Vec<(String, FieldType)> = Vec::new();
    v.push(entry("translation", FieldType::SFVec3f));
    v.push(entry("rotation", FieldType::SFRotation));
    v.push(entry("children", FieldType::MFNode));
    v.push(entry("name", FieldType::SFString));
    v.push(entry("model", FieldType::SFString));
    v.push(entry("description", FieldType::SFString));
    v.push(entry("contactMaterial", FieldType::SFString));
    v.push(entry("immersionProperties", FieldType::MFNode));
    v.push(entry("boundingObject", FieldType::SFNode));
    v.push(entry("physics", FieldType::SFNode));
    v.push(entry("locked", FieldType::SFBool));
    v.push(entry("radarCrossSection", FieldType::SFFloat));
    v.push(entry("recognitionColors", FieldType::MFColor));
    v.push(entry("linearVelocity", FieldType::SFVec3f));
    v.push(entry("angularVelocity", FieldType::SFVec3f));
    v.push(entry("tilt_angle", FieldType::SFFloat));
    v.push(entry("horizontal_resolution", FieldType::SFInt32));
    v.push(entry("field_of_view", FieldType::SFFloat));
    v.push(entry("vertical_field_of_view", FieldType::SFFloat));
    v.push(entry("number_of_layers", FieldType::SFInt32));
    v.push(entry("near", FieldType::SFFloat));
    v.push(entry("min_range", FieldType::SFFloat));
    v.push(entry("max_range", FieldType::SFFloat));
    v.push(entry("type", FieldType::SFString));
    v.push(entry("projection", FieldType::SFString));
    v.push(entry("noise", FieldType::SFFloat));
    v.push(entry("resolution", FieldType::SFFloat));
    v.push(entry("default_frequency", FieldType::SFFloat));
    v.push(entry("min_frequency", FieldType::SFFloat));
    v.push(entry("max_frequency", FieldType::SFFloat));
    v.push(entry("rotating_head", FieldType::SFNode));
    proof {
        assert(raw_fields_view(v@) =~= fields_lidar_spec());
    }
    v
}

pub open spec fn fields_light_sensor_spec() -> Seq<RawField> {
    seq![("translation"@, FieldTypeV::SFVec3f), ("rotation"@, FieldTypeV::SFRotation), ("children"@, FieldTypeV::MFNode), ("name"@, FieldTypeV::SFString), ("model"@, FieldTypeV::SFString), ("description"@, FieldTypeV::SFString), ("contactMaterial"@, FieldTypeV::SFString), ("immersionProperties"@, FieldTypeV::MFNode), ("boundingObject"@, FieldTypeV::SFNode), ("physics"@, FieldTypeV::SFNode), ("locked"@, FieldTypeV::SFBool), ("radarCrossSection"@, FieldTypeV::SFFloat), ("recognitionColors"@, FieldTypeV::MFColor), ("linearVelocity"@, FieldTypeV::SFVec3f), ("angularVelocity"@, FieldTypeV::SFVec3f), ("lookup_table"@, FieldTypeV::MFVec3f), ("color_filter"@, FieldTypeV::SFColor), ("occlusion"@, FieldTypeV::SFBool), ("resolution"@, FieldTypeV::SFFloat)]
}

fn fields_light_sensor() -> (r: Vec<(String, FieldType)>)
    ensures
        raw_fields_view(r@) == fields_light_sensor_spec(),
{
    let mut v: Vec<(String, FieldType)> = Vec::new();
    v.push(entry("translation", FieldType::SFVec3f));
    v.push(entry("rotation", FieldType::SFRotation));
    v.push(entry("children", FieldType::MFNode));
    v.push(entry("name", FieldType::SFString));
    v.push(entry("model", FieldType::SFString));
    v.push(entry("description", FieldType::SFString));
    v.push(entry("contactMaterial", FieldType::SFString));
    v.push(entry("immersionProperties", FieldType::MFNode));
    v.push(entry("boundingObject", FieldType::SFNode));
    v.push(entry("physics", FieldType::SFNode));
    v.push(entry("locked", FieldType::SFBool));
    v.push(entry("radarCrossSection", FieldType::SFFloat));
    v.push(entry("recognitionColors", FieldType::MFColor));
    v.push(entry("linearVelocity", FieldType::SFVec3f));
    v.push(entry("angularVelocity", FieldType::SFVec3f));
    v.push(entry("lookup_table", FieldType::MFVec3f));
    v.push(entry("color_filter", FieldType::SFColor));
    v.push(entry("occlusion", FieldType::SFBool));
    v.push(entry("resolution", FieldType::SFFloat));
    proof {
        assert(raw_fields_view(v@) =~= fields_light_sensor_spec());
    }
    v
}

pub open spec fn fields_position_sensor_spec() -> Seq<RawField> {
    seq![("name"@, FieldTypeV::SFString), ("model"@, FieldTypeV::SFString), ("description"@, FieldTypeV::SFString), ("noise"@, FieldTypeV::SFFloat), ("resolution"@, FieldTypeV::SFFloat)]
}

fn fields_position_sensor() -> (r: Vec<(String, FieldType)>)
    ensures
        raw_fields_view(r@) == fields_position_sensor_spec(),
{
    let mut v: Vec<(String, FieldType)> = Vec::new();
    v.push(entry("name", FieldType::SFString));
    v.push(entry("model", FieldType::SFString));
    v.push(entry("description", FieldType::SFString));
    v.push(entry("noise", FieldType::SFFloat));
    v.push(entry("resolution", FieldType::SFFloat));
    proof {
        assert(raw_fields_view(v@) =~= fields_position_sensor_spec());
    }
    v
}

pub open spec fn fields_radar_spec() -> Seq<RawField> {
    seq![("translation"@, FieldTypeV::SFVec3f), ("rotation"@, FieldTypeV::SFRotation), ("children"@, FieldTypeV::MFNode), ("name"@, FieldTypeV::SFString), ("model"@, FieldTypeV::SFString), ("description"@, FieldTypeV::SFString), ("contactMaterial"@, FieldTypeV::SFString), ("immersionProperties"@, FieldTypeV::MFNode), ("boundingObject"@, FieldTypeV::SFNode), ("physics"@, FieldTypeV::SFNode), ("locked"@, FieldTypeV::SFBool), ("radarCrossSection"@, FieldTypeV::SFFloat), ("recognitionColors"@, FieldTypeV::MFColor), ("linearVelocity"@, FieldTypeV::SFVec3f), ("angularVelocity"@, FieldTypeV::SFVec3f), ("min_range"@, FieldTypeV::SFFloat), ("max_range"@, FieldTypeV::SFFloat), ("horizontal_field_of_view"@, FieldTypeV::SFFloat), ("vertical_field_of_view"@, FieldTypeV::SFFloat), ("min_absolute_radial_speed"@, FieldTypeV::SFFloat), ("min_radial_speed"@, FieldTypeV::SFFloat), ("max_radial_speed"@, FieldTypeV::SFFloat), ("cell_distance"@, FieldTypeV::SFFloat), ("cell_speed"@, FieldTypeV::SFFloat), ("range_noise"@, FieldTypeV::SFFloat), ("speed_noise"@, FieldTypeV::SFFloat), ("angular_noise"@, FieldTypeV::SFFloat), ("antenna_gain"@, FieldTypeV::SFFloat), ("frequency"@, FieldTypeV::SFFloat), ("transmitted_power"@, FieldTypeV::SFFloat), ("min_detectable_signal"@, FieldTypeV::SFFloat), ("occlusion"@, FieldTypeV::SFBool)]
}

fn fields_radar() -> (r: Vec<(String, FieldType)>)
    ensures
        raw_fields_view(r@) == fields_radar_spec(),
{
    let mut v: Vec<(String, FieldType)> = Vec::new();
    v.push(entry("translation", FieldType::SFVec3f));
    v.push(entry("rotation", FieldType::SFRotation));
    v.push(entry("children", FieldType::MFNode));
    v.push(entry("name", FieldType::SFString));
    v.push(entry("model", FieldType::SFString));
    v.push(entry("description", FieldType::SFString));
    v.push(entry("contactMaterial", FieldType::SFString));
    v.push(entry("immersionProperties", FieldType::MFNode));
    v.push(entry("boundingObject", FieldType::SFNode));
    v.push(entry("physics", FieldType::SFNode));
    v.push(entry("locked", FieldType::SFBool));
    v.push(entry("radarCrossSection", FieldType::SFFloat));
    v.push(entry("recognitionColors", FieldType::MFColor));
    v.push(entry("linearVelocity", FieldType::SFVec3f));
    v.push(entry("angularVelocity", FieldType::SFVec3f));
    v.push(entry("min_range", FieldType::SFFloat));
    v.push(entry("max_range", FieldType::SFFloat));
    v.push(entry("horizontal_field_of_view", FieldType::SFFloat));
    v.push(entry("vertical_field_of_view", FieldType::SFFloat));
    v.push(entry("min_absolute_radial_speed", FieldType::SFFloat));
    v.push(entry("min_radial_speed", FieldType::SFFloat));
    v.push(entry("max_radial_speed", FieldType::SFFloat));
    v.push(entry("cell_distance", FieldType::SFFloat));
    v.push(entry("cell_speed", FieldType::SFFloat));
    v.push(entry("range_noise", FieldType::SFFloat));
    v.push(entry("speed_noise", FieldType::SFFloat));
    v.push(entry("angular_noise", FieldType::SFFloat));
    v.push(entry("antenna_gain", FieldType::SFFloat));
    v.push(entry("frequency", FieldType::SFFloat));
    v.push(entry("transmitted_power", FieldType::SFFloat));
    v.push(entry("min_detectable_signal", FieldType::SFFloat));
    v.push(entry("occlusion", FieldType::SFBool));
    proof {
        assert(raw_fields_view(v@) =~= fields_radar_spec());
    }
    v
}

pub open spec fn fields_range_finder_spec() -> Seq<RawField> {
    seq![("translation"@, FieldTypeV::SFVec3f), ("rotation"@, FieldTypeV::SFRotation), ("children"@, FieldTypeV::MFNode), ("name"@, FieldTypeV::SFString), ("model"@, FieldTypeV::SFString), ("description"@, FieldTypeV::SFString), ("contactMaterial"@, FieldTypeV::SFString), ("immersionProperties"@, FieldTypeV::MFNode), ("boundingObject"@, FieldTypeV::SFNode), ("physics"@, FieldTypeV::SFNode), ("locked"@, FieldTypeV::SFBool), ("radarCrossSection"@, FieldTypeV::SFFloat), ("recognitionColors"@, FieldTypeV::MFColor), ("linearVelocity"@, FieldTypeV::SFVec3f), ("angularVelocity"@, FieldTypeV::SFVec3f), ("field_of_view"@, FieldTypeV::SFFloat), ("width"@, FieldTypeV::SFInt32), ("height"@, FieldTypeV::SFInt32), ("projection"@, FieldTypeV::SFString), ("near"@, FieldTypeV::SFFloat), ("min_range"@, FieldTypeV::SFFloat), ("max_range"@, FieldTypeV::SFFloat), ("motion_blur"@, FieldTypeV::SFFloat), ("noise"@, FieldTypeV::SFFloat), ("resolution"@, FieldTypeV::SFFloat), ("lens"@, FieldTypeV::SFNode)]
}

fn fields_range_finder() -> (r: Vec<(String, FieldType)>)
    ensures
        raw_fields_view(r@) == fields_range_finder_spec(),
{
    let mut v: Vec<(String, FieldType)> = Vec::new();
    v.push(entry("translation", FieldType::SFVec3f));
    v.push(entry("rotation", FieldType::SFRotation));
    v.push(entry("children", FieldType::MFNode));
    v.push(entry("name", FieldType::SFString));
    v.push(entry("model", FieldType::SFString));
    v.push(entry("description", FieldType::SFString));
    v.push(entry("contactMaterial", FieldType::SFString));
    v.push(entry("immersionProperties", FieldType::MFNode));
    v.push(entry("boundingObject", FieldType::SFNode));
    v.push(entry("physics", FieldType::SFNode));
    v.push(entry("locked", FieldType::SFBool));
    v.push(entry("radarCrossSection", FieldType::SFFloat));
    v.push(entry("recognitionColors", FieldType::MFColor));
    v.push(entry("linearVelocity", FieldType::SFVec3f));
    v.push(entry("angularVelocity", FieldType::SFVec3f));
    v.push(entry("field_of_view", FieldType::SFFloat));
    v.push(entry("width", FieldType::SFInt32));
    v.push(entry("height", FieldType::SFInt32));
    v.push(entry("projection", FieldType::SFString));
    v.push(entry("near", FieldType::SFFloat));
    v.push(entry("min_range", FieldType::SFFloat));
    v.push(entry("max_range", FieldType::SFFloat));
    v.push(entry("motion_blur", FieldType::SFFloat));
    v.push(entry("noise", FieldType::SFFloat));
    v.push(entry("resolution", FieldType::SFFloat));
    v.push(entry("lens", FieldType::SFNode));
    proof {
        assert(raw_fields_view(v@) =~= fields_range_finder_spec());
    }
    v
}

pub open spec fn fields_touch_sensor_spec() -> Seq<RawField> {
    seq![("translation"@, FieldTypeV::SFVec3f), ("rotation"@, FieldTypeV::SFRotation), ("children"@, FieldTypeV::MFNode), ("name"@, FieldTypeV::SFString), ("model"@, FieldTypeV::SFString), ("description"@, FieldTypeV::SFString), ("contactMaterial"@, FieldTypeV::SFString), ("immersionProperties"@, FieldTypeV::MFNode), ("boundingObject"@, FieldTypeV::SFNode), ("physics"@, FieldTypeV::SFNode), ("locked"@, FieldTypeV::SFBool), ("radarCrossSection"@, FieldTypeV::SFFloat), ("recognitionColors"@, FieldTypeV::MFColor), ("linearVelocity"@, FieldTypeV::SFVec3f), ("angularVelocity"@, FieldTypeV::SFVec3f), ("type"@, FieldTypeV::SFString), ("lookup_table"@, FieldTypeV::MFVec3f), ("resolution"@, FieldTypeV::SFFloat)]
}

fn fields_touch_sensor() -> (r: Vec<(String, FieldType)>)
    ensures
        raw_fields_view(r@) == fields_touch_sensor_spec(),
{
    let mut v: Vec<(String, FieldType)> = Vec::new();
    v.push(entry("translation", FieldType::SFVec3f));
    v.push(entry("rotation", FieldType::SFRotation));
    v.push(entry("children", FieldType::MFNode));
    v.push(entry("name", FieldType::SFString));
    v.push(entry("model", FieldType::SFString));
    v.push(entry("description", FieldType::SFString));
    v.push(entry("contactMaterial", FieldType::SFString));
    v.push(entry("immersionProperties", FieldType::MFNode));
    v.push(entry("boundingObject", FieldType::SFNode));
    v.push(entry("physics", FieldType::SFNode));
    v.push(entry("locked", FieldType::SFBool));
    v.push(entry("radarCrossSection", FieldType::SFFloat));
    v.push(entry("recognitionColors", FieldType::MFColor));
    v.push(entry("linearVelocity", FieldType::SFVec3f));
    v.push(entry("angularVelocity", FieldType::SFVec3f));
    v.push(entry("type", FieldType::SFString));
    v.push(entry("lookup_table", FieldType::MFVec3f));
    v.push(entry("resolution", FieldType::SFFloat));
    proof {
        assert(raw_fields_view(v@) =~= fields_touch_sensor_spec());
    }
    v
}

pub open spec fn fields_rotational_motor_spec() -> Seq<RawField> {
    seq![("name"@, FieldTypeV::SFString), ("model"@, FieldTypeV::SFString), ("description"@, FieldTypeV::SFString), ("acceleration"@, FieldTypeV::SFFloat), ("consumptionFactor"@, FieldTypeV::SFFloat), ("controlPID"@, FieldTypeV::SFVec3f), ("minPosition"@, FieldTypeV::SFFloat), ("maxPosition"@, FieldTypeV::SFFloat), ("maxVelocity"@, FieldTypeV::SFFloat), ("multiplier"@, FieldTypeV::SFFloat), ("sound"@, FieldTypeV::SFString), ("muscles"@, FieldTypeV::MFNode), ("max_torque"@, FieldTypeV::SFFloat)]
}

fn fields_rotational_motor() -> (r: Vec<(String, FieldType)>)
    ensures
        raw_fields_view(r@) == fields_rotational_motor_spec(),
{
    let mut v: Vec<(String, FieldType)> = Vec::new();
    v.push(entry("name", FieldType::SFString));
    v.push(entry("model", FieldType::SFString));
    v.push(entry("description", FieldType::SFString));
    v.push(entry("acceleration", FieldType::SFFloat));
    v.push(entry("consumptionFactor", FieldType::SFFloat));
    v.push(entry("controlPID", FieldType::SFVec3f));
    v.push(entry("minPosition", FieldType::SFFloat));
    v.push(entry("maxPosition", FieldType::SFFloat));
    v.push(entry("maxVelocity", FieldType::SFFloat));
    v.push(entry("multiplier", FieldType::SFFloat));
    v.push(entry("sound", FieldType::SFString));
    v.push(entry("muscles", FieldType::MFNode));
    v.push(entry("max_torque", FieldType::SFFloat));
    proof {
        assert(raw_fields_view(v@) =~= fields_rotational_motor_spec());
    }
    v
}

pub open spec fn fields_linear_motor_spec() -> Seq<RawField> {
    seq![("name"@, FieldTypeV::SFString), ("model"@, FieldTypeV::SFString), ("description"@, FieldTypeV::SFString), ("acceleration"@, FieldTypeV::SFFloat), ("consumptionFactor"@, FieldTypeV::SFFloat), ("controlPID"@, FieldTypeV::SFVec3f), ("minPosition"@, FieldTypeV::SFFloat), ("maxPosition"@, FieldTypeV::SFFloat), ("maxVelocity"@, FieldTypeV::SFFloat), ("multiplier"@, FieldTypeV::SFFloat), ("sound"@, FieldTypeV::SFString), ("muscles"@, FieldTypeV::MFNode), ("max_force"@, FieldTypeV::SFFloat)]
}

fn fields_linear_motor() -> (r: Vec<(String, FieldType)>)
    ensures
        raw_fields_view(r@) == fields_linear_motor_spec(),
{
    let mut v: Vec<(String, FieldType)> = Vec::new();
    v.push(entry("name", FieldType::SFString));
    v.push(entry("model", FieldType::SFString));
    v.push(entry("description", FieldType::SFString));
    v.push(entry("acceleration", FieldType::SFFloat));
    v.push(entry("consumptionFactor", FieldType::SFFloat));
    v.push(entry("controlPID", FieldType::SFVec3f));
    v.push(entry("minPosition", FieldType::SFFloat));
    v.push(entry("maxPosition", FieldType::SFFloat));
    v.push(entry("maxVelocity", FieldType::SFFloat));
    v.push(entry("multiplier", FieldType::SFFloat));
    v.push(entry("sound", FieldType::SFString));
    v.push(entry("muscles", FieldType::MFNode));
    v.push(entry("max_force", FieldType::SFFloat));
    proof {
        assert(raw_fields_view(v@) =~= fields_linear_motor_spec());
    }
    v
}

pub open spec fn fields_brake_spec() -> Seq<RawField> {
    seq![("name"@, FieldTypeV::SFString), ("model"@, FieldTypeV::SFString), ("description"@, FieldTypeV::SFString)]
}

fn fields_brake() -> (r: Vec<(String, FieldType)>)
    ensures
        raw_fields_view(r@) == fields_brake_spec(),
{
    let mut v: Vec<(String, FieldType)> = Vec::new();
    v.push(entry("name", FieldType::SFString));
    v.push(entry("model", FieldType::SFString));
    v.push(entry("description", FieldType::SFString));
    proof {
        assert(raw_fields_view(v@) =~= fields_brake_spec());
    }
    v
}

pub open spec fn fields_propeller_spec() -> Seq<RawField> {
    seq![("translation"@, FieldTypeV::SFVec3f), ("rotation"@, FieldTypeV::SFRotation), ("children"@, FieldTypeV::MFNode), ("name"@, FieldTypeV::SFString), ("model"@, FieldTypeV::SFString), ("description"@, FieldTypeV::SFString), ("contactMaterial"@, FieldTypeV::SFString), ("immersionProperties"@, FieldTypeV::MFNode), ("boundingObject"@, FieldTypeV::SFNode), ("physics"@, FieldTypeV::SFNode), ("locked"@, FieldTypeV::SFBool), ("radarCrossSection"@, FieldTypeV::SFFloat), ("recognitionColors"@, FieldTypeV::MFColor), ("linearVelocity"@, FieldTypeV::SFVec3f), ("angularVelocity"@, FieldTypeV::SFVec3f), ("shaft_axis"@, FieldTypeV::SFVec3f), ("center_of_thrust"@, FieldTypeV::SFVec3f), ("thrust_constants"@, FieldTypeV::SFVec2f), ("torque_constants"@, FieldTypeV::SFVec2f), ("fast_helix_threshold"@, FieldTypeV::SFFloat), ("device"@, FieldTypeV::SFNode), ("fast_helix"@, FieldTypeV::SFNode), ("slow_helix"@, FieldTypeV::SFNode)]
}

fn fields_propeller() -> (r: Vec<(String, FieldType)>)
    ensures
        raw_fields_view(r@) == fields_propeller_spec(),
{
    let mut v: Vec<(String, FieldType)> = Vec::new();
    v.push(entry("translation", FieldType::SFVec3f));
    v.push(entry("rotation", FieldType::SFRotation));
    v.push(entry("children", FieldType::MFNode));
    v.push(entry("name", FieldType::SFString));
    v.push(entry("model", FieldType::SFString));
    v.push(entry("description", FieldType::SFString));
    v.push(entry("contactMaterial", FieldType::SFString));
    v.push(entry("immersionProperties", FieldType::MFNode));
    v.push(entry("boundingObject", FieldType::SFNode));
    v.push(entry("physics", FieldType::SFNode));
    v.push(entry("locked", FieldType::SFBool));
    v.push(entry("radarCrossSection", FieldType::SFFloat));
    v.push(entry("recognitionColors", FieldType::MFColor));
    v.push(entry("linearVelocity", FieldType::SFVec3f));
    v.push(entry("angularVelocity", FieldType::SFVec3f));
    v.push(entry("shaft_axis", FieldType::SFVec3f));
    v.push(entry("center_of_thrust", FieldType::SFVec3f));
    v.push(entry("thrust_constants", FieldType::SFVec2f));
    v.push(entry("torque_constants", FieldType::SFVec2f));
    v.push(entry("fast_helix_threshold", FieldType::SFFloat));
    v.push(entry("device", FieldType::SFNode));
    v.push(entry("fast_helix", FieldType::SFNode));
    v.push(entry("slow_helix", FieldType::SFNode));
    proof {
        assert(raw_fields_view(v@) =~= fields_propeller_spec());
    }
    v
}

pub open spec fn fields_muscle_spec() -> Seq<RawField> {
    seq![("volume"@, FieldTypeV::SFFloat), ("start_offset"@, FieldTypeV::SFVec3f), ("end_offset"@, FieldTypeV::SFVec3f), ("color"@, FieldTypeV::MFColor), ("cast_shadows"@, FieldTypeV::SFBool), ("visible"@, FieldTypeV::SFBool)]
}

fn fields_muscle() -> (r: Vec<(String, FieldType)>)
    ensures
        raw_fields_view(r@) == fields_muscle_spec(),
{
    let mut v: Vec<(String, FieldType)> = Vec::new();
    v.push(entry("volume", FieldType::SFFloat));
    v.push(entry("start_offset", FieldType::SFVec3f));
    v.push(entry("end_offset", FieldType::SFVec3f));
    v.push(entry("color", FieldType::MFColor));
    v.push(entry("cast_shadows", FieldType::SFBool));
    v.push(entry("visible", FieldType::SFBool));
    proof {
        assert(raw_fields_view(v@) =~= fields_muscle_spec());
    }
    v
}

pub open spec fn fields_hinge_joint_spec() -> Seq<RawField> {
    seq![("joint_parameters"@, FieldTypeV::SFNode), ("end_point"@, FieldTypeV::SFNode), ("device"@, FieldTypeV::MFNode), ("position"@, FieldTypeV::SFFloat)]
}

fn fields_hinge_joint() -> (r: Vec<(String, FieldType)>)
    ensures
        raw_fields_view(r@) == fields_hinge_joint_spec(),
{
    let mut v: Vec<(String, FieldType)> = Vec::new();
    v.push(entry("joint_parameters", FieldType::SFNode));
    v.push(entry("end_point", FieldType::SFNode));
    v.push(entry("device", FieldType::MFNode));
    v.push(entry("position", FieldType::SFFloat));
    proof {
        assert(raw_fields_view(v@) =~= fields_hinge_joint_spec());
    }
    v
}

pub open spec fn fields_hinge2_joint_spec() -> Seq<RawField> {
    seq![("joint_parameters"@, FieldTypeV::SFNode), ("joint_parameters2"@, FieldTypeV::SFNode), ("end_point"@, FieldTypeV::SFNode), ("device"@, FieldTypeV::MFNode), ("device2"@, FieldTypeV::MFNode), ("position"@, FieldTypeV::SFFloat), ("position2"@, FieldTypeV::SFFloat)]
}

fn fields_hinge2_joint() -> (r: Vec<(String, FieldType)>)
    ensures
        raw_fields_view(r@) == fields_hinge2_joint_spec(),
{
    let mut v: Vec<(String, FieldType)> = Vec::new();
    v.push(entry("joint_parameters", FieldType::SFNode));
    v.push(entry("joint_parameters2", FieldType::SFNode));
    v.push(entry("end_point", FieldType::SFNode));
    v.push(entry("device", FieldType::MFNode));
    v.push(entry("device2", FieldType::MFNode));
    v.push(entry("position", FieldType::SFFloat));
    v.push(entry("position2", FieldType::SFFloat));
    proof {
        assert(raw_fields_view(v@) =~= fields_hinge2_joint_spec());
    }
    v
}

pub open spec fn fields_ball_joint_spec() -> Seq<RawField> {
    seq![("joint_parameters"@, FieldTypeV::SFNode), ("joint_parameters2"@, FieldTypeV::SFNode), ("joint_parameters3"@, FieldTypeV::SFNode), ("end_point"@, FieldTypeV::SFNode), ("device"@, FieldTypeV::MFNode), ("device2"@, FieldTypeV::MFNode), ("device3"@, FieldTypeV::MFNode), ("position"@, FieldTypeV::SFFloat), ("position2"@, FieldTypeV::SFFloat), ("position3"@, FieldTypeV::SFFloat)]
}

fn fields_ball_joint() -> (r: Vec<(String, FieldType)>)
    ensures
        raw_fields_view(r@) == fields_ball_joint_spec(),
{
    let mut v: Vec<(String, FieldType)> = Vec::new();
    v.push(entry("joint_parameters", FieldType::SFNode));
    v.push(entry("joint_parameters2", FieldType::SFNode));
    v.push(entry("joint_parameters3", FieldType::SFNode));
    v.push(entry("end_point", FieldType::SFNode));
    v.push(entry("device", FieldType::MFNode));
    v.push(entry("device2", FieldType::MFNode));
    v.push(entry("device3", FieldType::MFNode));
    v.push(entry("position", FieldType::SFFloat));
    v.push(entry("position2", FieldType::SFFloat));
    v.push(entry("position3", FieldType::SFFloat));
    proof {
        assert(raw_fields_view(v@) =~= fields_ball_joint_spec());
    }
    v
}

pub open spec fn fields_slider_joint_spec() -> Seq<RawField> {
    seq![("joint_parameters"@, FieldTypeV::SFNode), ("end_point"@, FieldTypeV::SFNode), ("device"@, FieldTypeV::MFNode), ("position"@, FieldTypeV::SFFloat)]
}

fn fields_slider_joint() -> (r: Vec<(String, FieldType)>)
    ensures
        raw_fields_view(r@) == fields_slider_joint_spec(),
{
    let mut v: Vec<(String, FieldType)> = Vec::new();
    v.push(entry("joint_parameters", FieldType::SFNode));
    v.push(entry("end_point", FieldType::SFNode));
    v.push(entry("device", FieldType::MFNode));
    v.push(entry("position", FieldType::SFFloat));
    proof {
        assert(raw_fields_view(v@) =~= fields_slider_joint_spec());
    }
    v
}

pub open spec fn fields_joint_parameters_spec() -> Seq<RawField> {
    seq![("position"@, FieldTypeV::SFFloat), ("axis"@, FieldTypeV::SFVec3f), ("min_stop"@, FieldTypeV::SFFloat), ("max_stop"@, FieldTypeV::SFFloat), ("spring_constant"@, FieldTypeV::SFFloat), ("damping_constant"@, FieldTypeV::SFFloat), ("static_friction"@, FieldTypeV::SFFloat)]
}

fn fields_joint_parameters() -> (r: Vec<(String, FieldType)>)
    ensures
        raw_fields_view(r@) == fields_joint_parameters_spec(),
{
    let mut v: Vec<(String, FieldType)> = Vec::new();
    v.push(entry("position", FieldType::SFFloat));
    v.push(entry("axis", FieldType::SFVec3f));
    v.push(entry("min_stop", FieldType::SFFloat));
    v.push(entry("max_stop", FieldType::SFFloat));
    v.push(entry("spring_constant", FieldType::SFFloat));
    v.push(entry("damping_constant", FieldType::SFFloat));
    v.push(entry("static_friction", FieldType::SFFloat));
    proof {
        assert(raw_fields_view(v@) =~= fields_joint_parameters_spec());
    }
    v
}

pub open spec fn fields_hinge_joint_parameters_spec() -> Seq<RawField> {
    seq![("position"@, FieldTypeV::SFFloat), ("axis"@, FieldTypeV::SFVec3f), ("min_stop"@, FieldTypeV::SFFloat), ("max_stop"@, FieldTypeV::SFFloat), ("spring_constant"@, FieldTypeV::SFFloat), ("damping_constant"@, FieldTypeV::SFFloat), ("static_friction"@, FieldTypeV::SFFloat), ("anchor"@, FieldTypeV::SFVec3f), ("suspension_spring_constant"@, FieldTypeV::SFFloat), ("suspension_damping_constant"@, FieldTypeV::SFFloat), ("suspension_axis"@, FieldTypeV::SFVec3f), ("stop_erp"@, FieldTypeV::SFFloat), ("stop_cfm"@, FieldTypeV::SFFloat)]
}

fn fields_hinge_joint_parameters() -> (r: Vec<(String, FieldType)>)
    ensures
        raw_fields_view(r@) == fields_hinge_joint_parameters_spec(),
{
    let mut v: Vec<(String, FieldType)> = Vec::new();
    v.push(entry("position", FieldType::SFFloat));
    v.push(entry("axis", FieldType::SFVec3f));
    v.push(entry("min_stop", FieldType::SFFloat));
    v.push(entry("max_stop", FieldType::SFFloat));
    v.push(entry("spring_constant", FieldType::SFFloat));
    v.push(entry("damping_constant", FieldType::SFFloat));
    v.push(entry("static_friction", FieldType::SFFloat));
    v.push(entry("anchor", FieldType::SFVec3f));
    v.push(entry("suspension_spring_constant", FieldType::SFFloat));
    v.push(entry("suspension_damping_constant", FieldType::SFFloat));
    v.push(entry("suspension_axis", FieldType::SFVec3f));
    v.push(entry("stop_erp", FieldType::SFFloat));
    v.push(entry("stop_cfm", FieldType::SFFloat));
    proof {
        assert(raw_fields_view(v@) =~= fields_hinge_joint_parameters_spec());
    }
    v
}

pub open spec fn fields_ball_joint_parameters_spec() -> Seq<RawField> {
    seq![("position"@, FieldTypeV::SFFloat), ("axis"@, FieldTypeV::SFVec3f), ("min_stop"@, FieldTypeV::SFFloat), ("max_stop"@, FieldTypeV::SFFloat), ("spring_constant"@, FieldTypeV::SFFloat), ("damping_constant"@, FieldTypeV::SFFloat), ("static_friction"@, FieldTypeV::SFFloat), ("anchor"@, FieldTypeV::SFVec3f)]
}

fn fields_ball_joint_parameters() -> (r: Vec<(String, FieldType)>)
    ensures
        raw_fields_view(r@) == fields_ball_joint_parameters_spec(),
{
    let mut v: Vec<(String, FieldType)> = Vec::new();
    v.push(entry("position", FieldType::SFFloat));
    v.push(entry("axis", FieldType::SFVec3f));
    v.push(entry("min_stop", FieldType::SFFloat));
    v.push(entry("max_stop", FieldType::SFFloat));
    v.push(entry("spring_constant", FieldType::SFFloat));
    v.push(entry("damping_constant", FieldType::SFFloat));
    v.push(entry("static_friction", FieldType::SFFloat));
    v.push(entry("anchor", FieldType::SFVec3f));
    proof {
        assert(raw_fields_view(v@) =~= fields_ball_joint_parameters_spec());
    }
    v
}

pub open spec fn fields_led_spec() -> Seq<RawField> {
    seq![("translation"@, FieldTypeV::SFVec3f), ("rotation"@, FieldTypeV::SFRotation), ("children"@, FieldTypeV::MFNode), ("name"@, FieldTypeV::SFString), ("model"@, FieldTypeV::SFString), ("description"@, FieldTypeV::SFString), ("contactMaterial"@, FieldTypeV::SFString), ("immersionProperties"@, FieldTypeV::MFNode), ("boundingObject"@, FieldTypeV::SFNode), ("physics"@, FieldTypeV::SFNode), ("locked"@, FieldTypeV::SFBool), ("radarCrossSection"@, FieldTypeV::SFFloat), ("recognitionColors"@, FieldTypeV::MFColor), ("linearVelocity"@, FieldTypeV::SFVec3f), ("angularVelocity"@, FieldTypeV::SFVec3f), ("color"@, FieldTypeV::MFColor), ("gradual"@, FieldTypeV::SFBool)]
}

fn fields_led() -> (r: Vec<(String, FieldType)>)
    ensures
        raw_fields_view(r@) == fields_led_spec(),
{
    let mut v: Vec<(String, FieldType)> = Vec::new();
    v.push(entry("translation", FieldType::SFVec3f));
    v.push(entry("rotation", FieldType::SFRotation));
    v.push(entry("children", FieldType::MFNode));
    v.push(entry("name", FieldType::SFString));
    v.push(entry("model", FieldType::SFString));
    v.push(entry("description", FieldType::SFString));
    v.push(entry("contactMaterial", FieldType::SFString));
    v.push(entry("immersionProperties", FieldType::MFNode));
    v.push(entry("boundingObject", FieldType::SFNode));
    v.push(entry("physics", FieldType::SFNode));
    v.push(entry("locked", FieldType::SFBool));
    v.push(entry("radarCrossSection", FieldType::SFFloat));
    v.push(entry("recognitionColors", FieldType::MFColor));
    v.push(entry("linearVelocity", FieldType::SFVec3f));
    v.push(entry("angularVelocity", FieldType::SFVec3f));
    v.push(entry("color", FieldType::MFColor));
    v.push(entry("gradual", FieldType::SFBool));
    proof {
        assert(raw_fields_view(v@) =~= fields_led_spec());
    }
    v
}

pub open spec fn fields_emitter_spec() -> Seq<RawField> {
    seq![("translation"@, FieldTypeV::SFVec3f), ("rotation"@, FieldTypeV::SFRotation), ("children"@, FieldTypeV::MFNode), ("name"@, FieldTypeV::SFString), ("model"@, FieldTypeV::SFString), ("description"@, FieldTypeV::SFString), ("contactMaterial"@, FieldTypeV::SFString), ("immersionProperties"@, FieldTypeV::MFNode), ("boundingObject"@, FieldTypeV::SFNode), ("physics"@, FieldTypeV::SFNode), ("locked"@, FieldTypeV::SFBool), ("radarCrossSection"@, FieldTypeV::SFFloat), ("recognitionColors"@, FieldTypeV::MFColor), ("linearVelocity"@, FieldTypeV::SFVec3f), ("angularVelocity"@, FieldTypeV::SFVec3f), ("type"@, FieldTypeV::SFString), ("range"@, FieldTypeV::SFFloat), ("max_range"@, FieldTypeV::SFFloat), ("aperture"@, FieldTypeV::SFFloat), ("channel"@, FieldTypeV::SFInt32), ("baud_rate"@, FieldTypeV::SFInt32), ("byte_size"@, FieldTypeV::SFInt32), ("buffer_size"@, FieldTypeV::SFInt32), ("allowed_channels"@, FieldTypeV::MFInt32)]
}

fn fields_emitter() -> (r: Vec<(String, FieldType)>)
    ensures
        raw_fields_view(r@) == fields_emitter_spec(),
{
    let mut v: Vec<(String, FieldType)> = Vec::new();
    v.push(entry("translation", FieldType::SFVec3f));
    v.push(entry("rotation", FieldType::SFRotation));
    v.push(entry("children", FieldType::MFNode));
    v.push(entry("name", FieldType::SFString));
    v.push(entry("model", FieldType::SFString));
    v.push(entry("description", FieldType::SFString));
    v.push(entry("contactMaterial", FieldType::SFString));
    v.push(entry("immersionProperties", FieldType::MFNode));
    v.push(entry("boundingObject", FieldType::SFNode));
    v.push(entry("physics", FieldType::SFNode));
    v.push(entry("locked", FieldType::SFBool));
    v.push(entry("radarCrossSection", FieldType::SFFloat));
    v.push(entry("recognitionColors", FieldType::MFColor));
    v.push(entry("linearVelocity", FieldType::SFVec3f));
    v.push(entry("angularVelocity", FieldType::SFVec3f));
    v.push(entry("type", FieldType::SFString));
    v.push(entry("range", FieldType::SFFloat));
    v.push(entry("max_range", FieldType::SFFloat));
    v.push(entry("aperture", FieldType::SFFloat));
    v.push(entry("channel", FieldType::SFInt32));
    v.push(entry("baud_rate", FieldType::SFInt32));
    v.push(entry("byte_size", FieldType::SFInt32));
    v.push(entry("buffer_size", FieldType::SFInt32));
    v.push(entry("allowed_channels", FieldType::MFInt32));
    proof {
        assert(raw_fields_view(v@) =~= fields_emitter_spec());
    }
    v
}

pub open spec fn fields_receiver_spec() -> Seq<RawField> {
    seq![("translation"@, FieldTypeV::SFVec3f), ("rotation"@, FieldTypeV::SFRotation), ("children"@, FieldTypeV::MFNode), ("name"@, FieldTypeV::SFString), ("model"@, FieldTypeV::SFString), ("description"@, FieldTypeV::SFString), ("contactMaterial"@, FieldTypeV::SFString), ("immersionProperties"@, FieldTypeV::MFNode), ("boundingObject"@, FieldTypeV::SFNode), ("physics"@, FieldTypeV::SFNode), ("locked"@, FieldTypeV::SFBool), ("radarCrossSection"@, FieldTypeV::SFFloat), ("recognitionColors"@, FieldTypeV::MFColor), ("linearVelocity"@, FieldTypeV::SFVec3f), ("angularVelocity"@, FieldTypeV::SFVec3f), ("type"@, FieldTypeV::SFString), ("aperture"@, FieldTypeV::SFFloat), ("channel"@, FieldTypeV::SFInt32), ("baud_rate"@, FieldTypeV::SFInt32), ("byte_size"@, FieldTypeV::SFInt32), ("buffer_size"@, FieldTypeV::SFInt32), ("signal_strength_noise"@, FieldTypeV::SFFloat), ("direction_noise"@, FieldTypeV::SFFloat), ("allowed_channels"@, FieldTypeV::MFInt32)]
}

fn fields_receiver() -> (r: Vec<(String, FieldType)>)
    ensures
        raw_fields_view(r@) == fields_receiver_spec(),
{
    let mut v: Vec<(String, FieldType)> = Vec::new();
    v.push(entry("translation", FieldType::SFVec3f));
    v.push(entry("rotation", FieldType::SFRotation));
    v.push(entry("children", FieldType::MFNode));
    v.push(entry("name", FieldType::SFString));
    v.push(entry("model", FieldType::SFString));
    v.push(entry("description", FieldType::SFString));
    v.push(entry("contactMaterial", FieldType::SFString));
    v.push(entry("immersionProperties", FieldType::MFNode));
    v.push(entry("boundingObject", FieldType::SFNode));
    v.push(entry("physics", FieldType::SFNode));
    v.push(entry("locked", FieldType::SFBool));
    v.push(entry("radarCrossSection", FieldType::SFFloat));
    v.push(entry("recognitionColors", FieldType::MFColor));
    v.push(entry("linearVelocity", FieldType::SFVec3f));
    v.push(entry("angularVelocity", FieldType::SFVec3f));
    v.push(entry("type", FieldType::SFString));
    v.push(entry("aperture", FieldType::SFFloat));
    v.push(entry("channel", FieldType::SFInt32));
    v.push(entry("baud_rate", FieldType::SFInt32));
    v.push(entry("byte_size", FieldType::SFInt32));
    v.push(entry("buffer_size", FieldType::SFInt32));
    v.push(entry("signal_strength_noise", FieldType::SFFloat));
    v.push(entry("direction_noise", FieldType::SFFloat));
    v.push(entry("allowed_channels", FieldType::MFInt32));
    proof {
        assert(raw_fields_view(v@) =~= fields_receiver_spec());
    }
    v
}

pub open spec fn fields_connector_spec() -> Seq<RawField> {
    seq![("translation"@, FieldTypeV::SFVec3f), ("rotation"@, FieldTypeV::SFRotation), ("children"@, FieldTypeV::MFNode), ("name"@, FieldTypeV::SFString), ("model"@, FieldTypeV::SFString), ("description"@, FieldTypeV::SFString), ("contactMaterial"@, FieldTypeV::SFString), ("immersionProperties"@, FieldTypeV::MFNode), ("boundingObject"@, FieldTypeV::SFNode), ("physics"@, FieldTypeV::SFNode), ("locked"@, FieldTypeV::SFBool), ("radarCrossSection"@, FieldTypeV::SFFloat), ("recognitionColors"@, FieldTypeV::MFColor), ("linearVelocity"@, FieldTypeV::SFVec3f), ("angularVelocity"@, FieldTypeV::SFVec3f), ("type"@, FieldTypeV::SFString), ("is_locked"@, FieldTypeV::SFBool), ("auto_lock"@, FieldTypeV::SFBool), ("unilateral_lock"@, FieldTypeV::SFBool), ("unilateral_unlock"@, FieldTypeV::SFBool), ("distance_tolerance"@, FieldTypeV::SFFloat), ("axis_tolerance"@, FieldTypeV::SFFloat), ("rotation_tolerance"@, FieldTypeV::SFFloat), ("number_of_rotations"@, FieldTypeV::SFInt32), ("snap"@, FieldTypeV::SFBool), ("tensile_strength"@, FieldTypeV::SFFloat), ("shear_strength"@, FieldTypeV::SFFloat)]
}

fn fields_connector() -> (r: Vec<(String, FieldType)>)
    ensures
        raw_fields_view(r@) == fields_connector_spec(),
{
    let mut v: Vec<(String, FieldType)> = Vec::new();
    v.push(entry("translation", FieldType::SFVec3f));
    v.push(entry("rotation", FieldType::SFRotation));
    v.push(entry("children", FieldType::MFNode));
    v.push(entry("name", FieldType::SFString));
    v.push(entry("model", FieldType::SFString));
    v.push(entry("description", FieldType::SFString));
    v.push(entry("contactMaterial", FieldType::SFString));
    v.push(entry("immersionProperties", FieldType::MFNode));
    v.push(entry("boundingObject", FieldType::SFNode));
    v.push(entry("physics", FieldType::SFNode));
    v.push(entry("locked", FieldType::SFBool));
    v.push(entry("radarCrossSection", FieldType::SFFloat));
    v.push(entry("recognitionColors", FieldType::MFColor));
    v.push(entry("linearVelocity", FieldType::SFVec3f));
    v.push(entry("angularVelocity", FieldType::SFVec3f));
    v.push(entry("type", FieldType::SFString));
    v.push(entry("is_locked", FieldType::SFBool));
    v.push(entry("auto_lock", FieldType::SFBool));
    v.push(entry("unilateral_lock", FieldType::SFBool));
    v.push(entry("unilateral_unlock", FieldType::SFBool));
    v.push(entry("distance_tolerance", FieldType::SFFloat));
    v.push(entry("axis_tolerance", FieldType::SFFloat));
    v.push(entry("rotation_tolerance", FieldType::SFFloat));
    v.push(entry("number_of_rotations", FieldType::SFInt32));
    v.push(entry("snap", FieldType::SFBool));
    v.push(entry("tensile_strength", FieldType::SFFloat));
    v.push(entry("shear_strength", FieldType::SFFloat));
    proof {
        assert(raw_fields_view(v@) =~= fields_connector_spec());
    }
    v
}

pub open spec fn fields_display_spec() -> Seq<RawField> {
    seq![("translation"@, FieldTypeV::SFVec3f), ("rotation"@, FieldTypeV::SFRotation), ("children"@, FieldTypeV::MFNode), ("name"@, FieldTypeV::SFString), ("model"@, FieldTypeV::SFString), ("description"@, FieldTypeV::SFString), ("contactMaterial"@, FieldTypeV::SFString), ("immersionProperties"@, FieldTypeV::MFNode), ("boundingObject"@, FieldTypeV::SFNode), ("physics"@, FieldTypeV::SFNode), ("locked"@, FieldTypeV::SFBool), ("radarCrossSection"@, FieldTypeV::SFFloat), ("recognitionColors"@, FieldTypeV::MFColor), ("linearVelocity"@, FieldTypeV::SFVec3f), ("angularVelocity"@, FieldTypeV::SFVec3f), ("width"@, FieldTypeV::SFInt32), ("height"@, FieldTypeV::SFInt32)]
}

fn fields_display() -> (r: Vec<(String, FieldType)>)
    ensures
        raw_fields_view(r@) == fields_display_spec(),
{
    let mut v: Vec<(String, FieldType)> = Vec::new();
    v.push(entry("translation", FieldType::SFVec3f));
    v.push(entry("rotation", FieldType::SFRotation));
    v.push(entry("children", FieldType::MFNode));
    v.push(entry("name", FieldType::SFString));
    v.push(entry("model", FieldType::SFString));
    v.push(entry("description", FieldType::SFString));
    v.push(entry("contactMaterial", FieldType::SFString));
    v.push(entry("immersionProperties", FieldType::MFNode));
    v.push(entry("boundingObject", FieldType::SFNode));
    v.push(entry("physics", FieldType::SFNode));
    v.push(entry("locked", FieldType::SFBool));
    v.push(entry("radarCrossSection", FieldType::SFFloat));
    v.push(entry("recognitionColors", FieldType::MFColor));
    v.push(entry("linearVelocity", FieldType::SFVec3f));
    v.push(entry("angularVelocity", FieldType::SFVec3f));
    v.push(entry("width", FieldType::SFInt32));
    v.push(entry("height", FieldType::SFInt32));
    proof {
        assert(raw_fields_view(v@) =~= fields_display_spec());
    }
    v
}

pub open spec fn fields_pen_spec() -> Seq<RawField> {
    seq![("translation"@, FieldTypeV::SFVec3f), ("rotation"@, FieldTypeV::SFRotation), ("children"@, FieldTypeV::MFNode), ("name"@, FieldTypeV::SFString), ("model"@, FieldTypeV::SFString), ("description"@, FieldTypeV::SFString), ("contactMaterial"@, FieldTypeV::SFString), ("immersionProperties"@, FieldTypeV::MFNode), ("boundingObject"@, FieldTypeV::SFNode), ("physics"@, FieldTypeV::SFNode), ("locked"@, FieldTypeV::SFBool), ("radarCrossSection"@, FieldTypeV::SFFloat), ("recognitionColors"@, FieldTypeV::MFColor), ("linearVelocity"@, FieldTypeV::SFVec3f), ("angularVelocity"@, FieldTypeV::SFVec3f), ("ink_color"@, FieldTypeV::SFColor), ("ink_density"@, FieldTypeV::SFFloat), ("lead_size"@, FieldTypeV::SFFloat), ("max_distance"@, FieldTypeV::SFFloat), ("write"@, FieldTypeV::SFBool)]
}

fn fields_pen() -> (r: Vec<(String, FieldType)>)
    ensures
        raw_fields_view(r@) == fields_pen_spec(),
{
    let mut v: Vec<(String, FieldType)> = Vec::new();
    v.push(entry("translation", FieldType::SFVec3f));
    v.push(entry("rotation", FieldType::SFRotation));
    v.push(entry("children", FieldType::MFNode));
    v.push(entry("name", FieldType::SFString));
    v.push(entry("model", FieldType::SFString));
    v.push(entry("description", FieldType::SFString));
    v.push(entry("contactMaterial", FieldType::SFString));
    v.push(entry("immersionProperties", FieldType::MFNode));
    v.push(entry("boundingObject", FieldType::SFNode));
    v.push(entry("physics", FieldType::SFNode));
    v.push(entry("locked", FieldType::SFBool));
    v.push(entry("radarCrossSection", FieldType::SFFloat));
    v.push(entry("recognitionColors", FieldType::MFColor));
    v.push(entry("linearVelocity", FieldType::SFVec3f));
    v.push(entry("angularVelocity", FieldType::SFVec3f));
    v.push(entry("ink_color", FieldType::SFColor));
    v.push(entry("ink_density", FieldType::SFFloat));
    v.push(entry("lead_size", FieldType::SFFloat));
    v.push(entry("max_distance", FieldType::SFFloat));
    v.push(entry("write", FieldType::SFBool));
    proof {
        assert(raw_fields_view(v@) =~= fields_pen_spec());
    }
    v
}

pub open spec fn fields_speaker_spec() -> Seq<RawField> {
    seq![("translation"@, FieldTypeV::SFVec3f), ("rotation"@, FieldTypeV::SFRotation), ("children"@, FieldTypeV::MFNode), ("name"@, FieldTypeV::SFString), ("model"@, FieldTypeV::SFString), ("description"@, FieldTypeV::SFString), ("contactMaterial"@, FieldTypeV::SFString), ("immersionProperties"@, FieldTypeV::MFNode), ("boundingObject"@, FieldTypeV::SFNode), ("physics"@, FieldTypeV::SFNode), ("locked"@, FieldTypeV::SFBool), ("radarCrossSection"@, FieldTypeV::SFFloat), ("recognitionColors"@, FieldTypeV::MFColor), ("linearVelocity"@, FieldTypeV::SFVec3f), ("angularVelocity"@, FieldTypeV::SFVec3f)]
}

fn fields_speaker() -> (r: Vec<(String, FieldType)>)
    ensures
        raw_fields_view(r@) == fields_speaker_spec(),
{
    let mut v: Vec<(String, FieldType)> = Vec::new();
    v.push(entry("translation", FieldType::SFVec3f));
    v.push(entry("rotation", FieldType::SFRotation));
    v.push(entry("children", FieldType::MFNode));
    v.push(entry("name", FieldType::SFString));
    v.push(entry("model", FieldType::SFString));
    v.push(entry("description", FieldType::SFString));
    v.push(entry("contactMaterial", FieldType::SFString));
    v.push(entry("immersionProperties", FieldType::MFNode));
    v.push(entry("boundingObject", FieldType::SFNode));
    v.push(entry("physics", FieldType::SFNode));
    v.push(entry("locked", FieldType::SFBool));
    v.push(entry("radarCrossSection", FieldType::SFFloat));
    v.push(entry("recognitionColors", FieldType::MFColor));
    v.push(entry("linearVelocity", FieldType::SFVec3f));
    v.push(entry("angularVelocity", FieldType::SFVec3f));
    proof {
        assert(raw_fields_view(v@) =~= fields_speaker_spec());
    }
    v
}

pub open spec fn fields_charger_spec() -> Seq<RawField> {
    seq![("translation"@, FieldTypeV::SFVec3f), ("rotation"@, FieldTypeV::SFRotation), ("children"@, FieldTypeV::MFNode), ("name"@, FieldTypeV::SFString), ("model"@, FieldTypeV::SFString), ("description"@, FieldTypeV::SFString), ("contactMaterial"@, FieldTypeV::SFString), ("immersionProperties"@, FieldTypeV::MFNode), ("boundingObject"@, FieldTypeV::SFNode), ("physics"@, FieldTypeV::SFNode), ("locked"@, FieldTypeV::SFBool), ("radarCrossSection"@, FieldTypeV::SFFloat), ("recognitionColors"@, FieldTypeV::MFColor), ("linearVelocity"@, FieldTypeV::SFVec3f), ("angularVelocity"@, FieldTypeV::SFVec3f), ("battery"@, FieldTypeV::MFFloat), ("radius"@, FieldTypeV::SFFloat), ("emissive_color"@, FieldTypeV::SFColor), ("gradual"@, FieldTypeV::SFBool)]
}

fn fields_charger() -> (r: Vec<(String, FieldType)>)
    ensures
        raw_fields_view(r@) == fields_charger_spec(),
{
    let mut v: Vec<(String, FieldType)> = Vec::new();
    v.push(entry("translation", FieldType::SFVec3f));
    v.push(entry("rotation", FieldType::SFRotation));
    v.push(entry("children", FieldType::MFNode));
    v.push(entry("name", FieldType::SFString));
    v.push(entry("model", FieldType::SFString));
    v.push(entry("description", FieldType::SFString));
    v.push(entry("contactMaterial", FieldType::SFString));
    v.push(entry("immersionProperties", FieldType::MFNode));
    v.push(entry("boundingObject", FieldType::SFNode));
    v.push(entry("physics", FieldType::SFNode));
    v.push(entry("locked", FieldType::SFBool));
    v.push(entry("radarCrossSection", FieldType::SFFloat));
    v.push(entry("recognitionColors", FieldType::MFColor));
    v.push(entry("linearVelocity", FieldType::SFVec3f));
    v.push(entry("angularVelocity", FieldType::SFVec3f));
    v.push(entry("battery", FieldType::MFFloat));
    v.push(entry("radius", FieldType::SFFloat));
    v.push(entry("emissive_color", FieldType::SFColor));
    v.push(entry("gradual", FieldType::SFBool));
    proof {
        assert(raw_fields_view(v@) =~= fields_charger_spec());
    }
    v
}

pub open spec fn fields_vacuum_gripper_spec() -> Seq<RawField> {
    seq![("translation"@, FieldTypeV::SFVec3f), ("rotation"@, FieldTypeV::SFRotation), ("children"@, FieldTypeV::MFNode), ("name"@, FieldTypeV::SFString), ("model"@, FieldTypeV::SFString), ("description"@, FieldTypeV::SFString), ("contactMaterial"@, FieldTypeV::SFString), ("immersionProperties"@, FieldTypeV::MFNode), ("boundingObject"@, FieldTypeV::SFNode), ("physics"@, FieldTypeV::SFNode), ("locked"@, FieldTypeV::SFBool), ("radarCrossSection"@, FieldTypeV::SFFloat), ("recognitionColors"@, FieldTypeV::MFColor), ("linearVelocity"@, FieldTypeV::SFVec3f), ("angularVelocity"@, FieldTypeV::SFVec3f), ("is_on"@, FieldTypeV::SFBool), ("tensile_strength"@, FieldTypeV::SFFloat), ("shear_strength"@, FieldTypeV::SFFloat), ("contact_points"@, FieldTypeV::SFInt32)]
}

fn fields_vacuum_gripper() -> (r: Vec<(String, FieldType)>)
    ensures
        raw_fields_view(r@) == fields_vacuum_gripper_spec(),
{
    let mut v: Vec<(String, FieldType)> = Vec::new();
    v.push(entry("translation", FieldType::SFVec3f));
    v.push(entry("rotation", FieldType::SFRotation));
    v.push(entry("children", FieldType::MFNode));
    v.push(entry("name", FieldType::SFString));
    v.push(entry("model", FieldType::SFString));
    v.push(entry("description", FieldType::SFString));
    v.push(entry("contactMaterial", FieldType::SFString));
    v.push(entry("immersionProperties", FieldType::MFNode));
    v.push(entry("boundingObject", FieldType::SFNode));
    v.push(entry("physics", FieldType::SFNode));
    v.push(entry("locked", FieldType::SFBool));
    v.push(entry("radarCrossSection", FieldType::SFFloat));
    v.push(entry("recognitionColors", FieldType::MFColor));
    v.push(entry("linearVelocity", FieldType::SFVec3f));
    v.push(entry("angularVelocity", FieldType::SFVec3f));
    v.push(entry("is_on", FieldType::SFBool));
    v.push(entry("tensile_strength", FieldType::SFFloat));
    v.push(entry("shear_strength", FieldType::SFFloat));
    v.push(entry("contact_points", FieldType::SFInt32));
    proof {
        assert(raw_fields_view(v@) =~= fields_vacuum_gripper_spec());
    }
    v
}

pub open spec fn fields_track_spec() -> Seq<RawField> {
    seq![("translation"@, FieldTypeV::SFVec3f), ("rotation"@, FieldTypeV::SFRotation), ("children"@, FieldTypeV::MFNode), ("name"@, FieldTypeV::SFString), ("model"@, FieldTypeV::SFString), ("description"@, FieldTypeV::SFString), ("contactMaterial"@, FieldTypeV::SFString), ("immersionProperties"@, FieldTypeV::MFNode), ("boundingObject"@, FieldTypeV::SFNode), ("physics"@, FieldTypeV::SFNode), ("locked"@, FieldTypeV::SFBool), ("radarCrossSection"@, FieldTypeV::SFFloat), ("recognitionColors"@, FieldTypeV::MFColor), ("linearVelocity"@, FieldTypeV::SFVec3f), ("angularVelocity"@, FieldTypeV::SFVec3f), ("device"@, FieldTypeV::MFNode), ("texture_animation"@, FieldTypeV::SFVec2f), ("animated_geometry"@, FieldTypeV::SFNode), ("geometries_count"@, FieldTypeV::SFInt32)]
}

fn fields_track() -> (r: Vec<(String, FieldType)>)
    ensures
        raw_fields_view(r@) == fields_track_spec(),
{
    let mut v: Vec<(String, FieldType)> = Vec::new();
    v.push(entry("translation", FieldType::SFVec3f));
    v.push(entry("rotation", FieldType::SFRotation));
    v.push(entry("children", FieldType::MFNode));
    v.push(entry("name", FieldType::SFString));
    v.push(entry("model", FieldType::SFString));
    v.push(entry("description", FieldType::SFString));
    v.push(entry("contactMaterial", FieldType::SFString));
    v.push(entry("immersionProperties", FieldType::MFNode));
    v.push(entry("boundingObject", FieldType::SFNode));
    v.push(entry("physics", FieldType::SFNode));
    v.push(entry("locked", FieldType::SFBool));
    v.push(entry("radarCrossSection", FieldType::SFFloat));
    v.push(entry("recognitionColors", FieldType::MFColor));
    v.push(entry("linearVelocity", FieldType::SFVec3f));
    v.push(entry("angularVelocity", FieldType::SFVec3f));
    v.push(entry("device", FieldType::MFNode));
    v.push(entry("texture_animation", FieldType::SFVec2f));
    v.push(entry("animated_geometry", FieldType::SFNode));
    v.push(entry("geometries_count", FieldType::SFInt32));
    proof {
        assert(raw_fields_view(v@) =~= fields_track_spec());
    }
    v
}

pub open spec fn fields_track_wheel_spec() -> Seq<RawField> {
    seq![("position"@, FieldTypeV::SFVec2f), ("radius"@, FieldTypeV::SFFloat), ("inner"@, FieldTypeV::SFBool), ("children"@, FieldTypeV::MFNode)]
}

fn fields_track_wheel() -> (r: Vec<(String, FieldType)>)
    ensures
        raw_fields_view(r@) == fields_track_wheel_spec(),
{
    let mut v: Vec<(String, FieldType)> = Vec::new();
    v.push(entry("position", FieldType::SFVec2f));
    v.push(entry("radius", FieldType::SFFloat));
    v.push(entry("inner", FieldType::SFBool));
    v.push(entry("children", FieldType::MFNode));
    proof {
        assert(raw_fields_view(v@) =~= fields_track_wheel_spec());
    }
    v
}

pub open spec fn fields_skin_spec() -> Seq<RawField> {
    seq![("name"@, FieldTypeV::SFString), ("model"@, FieldTypeV::SFString), ("description"@, FieldTypeV::SFString), ("translation"@, FieldTypeV::SFVec3f), ("rotation"@, FieldTypeV::SFRotation), ("scale"@, FieldTypeV::SFVec3f), ("model_url"@, FieldTypeV::SFString), ("appearance"@, FieldTypeV::MFNode), ("bones"@, FieldTypeV::MFNode), ("cast_shadows"@, FieldTypeV::SFBool), ("translation_step"@, FieldTypeV::SFFloat), ("rotation_step"@, FieldTypeV::SFFloat)]
}

fn fields_skin() -> (r: Vec<(String, FieldType)>)
    ensures
        raw_fields_view(r@) == fields_skin_spec(),
{
    let mut v: Vec<(String, FieldType)> = Vec::new();
    v.push(entry("name", FieldType::SFString));
    v.push(entry("model", FieldType::SFString));
    v.push(entry("description", FieldType::SFString));
    v.push(entry("translation", FieldType::SFVec3f));
    v.push(entry("rotation", FieldType::SFRotation));
    v.push(entry("scale", FieldType::SFVec3f));
    v.push(entry("model_url", FieldType::SFString));
    v.push(entry("appearance", FieldType::MFNode));
    v.push(entry("bones", FieldType::MFNode));
    v.push(entry("cast_shadows", FieldType::SFBool));
    v.push(entry("translation_step", FieldType::SFFloat));
    v.push(entry("rotation_step", FieldType::SFFloat));
    proof {
        assert(raw_fields_view(v@) =~= fields_skin_spec());
    }
    v
}

pub open spec fn fields_background_spec() -> Seq<RawField> {
    seq![("sky_color"@, FieldTypeV::MFColor), ("back_url"@, FieldTypeV::MFString), ("bottom_url"@, FieldTypeV::MFString), ("front_url"@, FieldTypeV::MFString), ("left_url"@, FieldTypeV::MFString), ("right_url"@, FieldTypeV::MFString), ("top_url"@, FieldTypeV::MFString), ("back_irradiance_url"@, FieldTypeV::MFString), ("bottom_irradiance_url"@, FieldTypeV::MFString), ("front_irradiance_url"@, FieldTypeV::MFString), ("left_irradiance_url"@, FieldTypeV::MFString), ("right_irradiance_url"@, FieldTypeV::MFString), ("top_irradiance_url"@, FieldTypeV::MFString), ("luminosity"@, FieldTypeV::SFFloat)]
}

fn fields_background() -> (r: Vec<(String, FieldType)>)
    ensures
        raw_fields_view(r@) == fields_background_spec(),
{
    let mut v: Vec<(String, FieldType)> = Vec::new();
    v.push(entry("sky_color", FieldType::MFColor));
    v.push(entry("back_url", FieldType::MFString));
    v.push(entry("bottom_url", FieldType::MFString));
    v.push(entry("front_url", FieldType::MFString));
    v.push(entry("left_url", FieldType::MFString));
    v.push(entry("right_url", FieldType::MFString));
    v.push(entry("top_url", FieldType::MFString));
    v.push(entry("back_irradiance_url", FieldType::MFString));
    v.push(entry("bottom_irradiance_url", FieldType::MFString));
    v.push(entry("front_irradiance_url", FieldType::MFString));
    v.push(entry("left_irradiance_url", FieldType::MFString));
    v.push(entry("right_irradiance_url", FieldType::MFString));
    v.push(entry("top_irradiance_url", FieldType::MFString));
    v.push(entry("luminosity", FieldType::SFFloat));
    proof {
        assert(raw_fields_view(v@) =~= fields_background_spec());
    }
    v
}

pub open spec fn fields_fog_spec() -> Seq<RawField> {
    seq![("color"@, FieldTypeV::SFColor), ("fog_type"@, FieldTypeV::SFString), ("visibility_range"@, FieldTypeV::SFFloat)]
}

fn fields_fog() -> (r: Vec<(String, FieldType)>)
    ensures
        raw_fields_view(r@) == fields_fog_spec(),
{
    let mut v: Vec<(String, FieldType)> = Vec::new();
    v.push(entry("color", FieldType::SFColor));
    v.push(entry("fog_type", FieldType::SFString));
    v.push(entry("visibility_range", FieldType::SFFloat));
    proof {
        assert(raw_fields_view(v@) =~= fields_fog_spec());
    }
    v
}

pub open spec fn fields_directional_light_spec() -> Seq<RawField> {
    seq![("ambient_intensity"@, FieldTypeV::SFFloat), ("color"@, FieldTypeV::SFColor), ("intensity"@, FieldTypeV::SFFloat), ("on"@, FieldTypeV::SFBool), ("cast_shadows"@, FieldTypeV::SFBool), ("direction"@, FieldTypeV::SFVec3f)]
}

fn fields_directional_light() -> (r: Vec<(String, FieldType)>)
    ensures
        raw_fields_view(r@) == fields_directional_light_spec(),
{
    let mut v: Vec<(String, FieldType)> = Vec::new();
    v.push(entry("ambient_intensity", FieldType::SFFloat));
    v.push(entry("color", FieldType::SFColor));
    v.push(entry("intensity", FieldType::SFFloat));
    v.push(entry("on", FieldType::SFBool));
    v.push(entry("cast_shadows", FieldType::SFBool));
    v.push(entry("direction", FieldType::SFVec3f));
    proof {
        assert(raw_fields_view(v@) =~= fields_directional_light_spec());
    }
    v
}

pub open spec fn fields_point_light_spec() -> Seq<RawField> {
    seq![("ambient_intensity"@, FieldTypeV::SFFloat), ("color"@, FieldTypeV::SFColor), ("intensity"@, FieldTypeV::SFFloat), ("on"@, FieldTypeV::SFBool), ("cast_shadows"@, FieldTypeV::SFBool), ("attenuation"@, FieldTypeV::SFVec3f), ("location"@, FieldTypeV::SFVec3f), ("radius"@, FieldTypeV::SFFloat)]
}

fn fields_point_light() -> (r: Vec<(String, FieldType)>)
    ensures
        raw_fields_view(r@) == fields_point_light_spec(),
{
    let mut v: Vec<(String, FieldType)> = Vec::new();
    v.push(entry("ambient_intensity", FieldType::SFFloat));
    v.push(entry("color", FieldType::SFColor));
    v.push(entry("intensity", FieldType::SFFloat));
    v.push(entry("on", FieldType::SFBool));
    v.push(entry("cast_shadows", FieldType::SFBool));
    v.push(entry("attenuation", FieldType::SFVec3f));
    v.push(entry("location", FieldType::SFVec3f));
    v.push(entry("radius", FieldType::SFFloat));
    proof {
        assert(raw_fields_view(v@) =~= fields_point_light_spec());
    }
    v
}

pub open spec fn fields_spot_light_spec() -> Seq<RawField> {
    seq![("ambient_intensity"@, FieldTypeV::SFFloat), ("color"@, FieldTypeV::SFColor), ("intensity"@, FieldTypeV::SFFloat), ("on"@, FieldTypeV::SFBool), ("cast_shadows"@, FieldTypeV::SFBool), ("attenuation"@, FieldTypeV::SFVec3f), ("beam_width"@, FieldTypeV::SFFloat), ("cut_off_angle"@, FieldTypeV::SFFloat), ("direction"@, FieldTypeV::SFVec3f), ("location"@, FieldTypeV::SFVec3f), ("radius"@, FieldTypeV::SFFloat)]
}

fn fields_spot_light() -> (r: Vec<(String, FieldType)>)
    ensures
        raw_fields_view(r@) == fields_spot_light_spec(),
{
    let mut v: Vec<(String, FieldType)> = Vec::new();
    v.push(entry("ambient_intensity", FieldType::SFFloat));
    v.push(entry("color", FieldType::SFColor));
    v.push(entry("intensity", FieldType::SFFloat));
    v.push(entry("on", FieldType::SFBool));
    v.push(entry("cast_shadows", FieldType::SFBool));
    v.push(entry("attenuation", FieldType::SFVec3f));
    v.push(entry("beam_width", FieldType::SFFloat));
    v.push(entry("cut_off_angle", FieldType::SFFloat));
    v.push(entry("direction", FieldType::SFVec3f));
    v.push(entry("location", FieldType::SFVec3f));
    v.push(entry("radius", FieldType::SFFloat));
    proof {
        assert(raw_fields_view(v@) =~= fields_spot_light_spec());
    }
    v
}

pub open spec fn fields_physics_spec() -> Seq<RawField> {
    seq![("density"@, FieldTypeV::SFFloat), ("mass"@, FieldTypeV::SFFloat), ("center_of_mass"@, FieldTypeV::SFVec3f), ("inertia_matrix"@, FieldTypeV::MFFloat), ("damping"@, FieldTypeV::SFNode)]
}

fn fields_physics() -> (r: Vec<(String, FieldType)>)
    ensures
        raw_fields_view(r@) == fields_physics_spec(),
{
    let mut v: Vec<(String, FieldType)> = Vec::new();
    v.push(entry("density", FieldType::SFFloat));
    v.push(entry("mass", FieldType::SFFloat));
    v.push(entry("center_of_mass", FieldType::SFVec3f));
    v.push(entry("inertia_matrix", FieldType::MFFloat));
    v.push(entry("damping", FieldType::SFNode));
    proof {
        assert(raw_fields_view(v@) =~= fields_physics_spec());
    }
    v
}

pub open spec fn fields_damping_spec() -> Seq<RawField> {
    seq![("linear"@, FieldTypeV::SFFloat), ("angular"@, FieldTypeV::SFFloat)]
}

fn fields_damping() -> (r: Vec<(String, FieldType)>)
    ensures
        raw_fields_view(r@) == fields_damping_spec(),
{
    let mut v: Vec<(String, FieldType)> = Vec::new();
    v.push(entry("linear", FieldType::SFFloat));
    v.push(entry("angular", FieldType::SFFloat));
    proof {
        assert(raw_fields_view(v@) =~= fields_damping_spec());
    }
    v
}

pub open spec fn fields_contact_properties_spec() -> Seq<RawField> {
    seq![("material1"@, FieldTypeV::SFString), ("material2"@, FieldTypeV::SFString), ("coulomb_friction"@, FieldTypeV::MFFloat), ("friction_rotation"@, FieldTypeV::SFVec2f), ("rolling_friction"@, FieldTypeV::SFVec3f), ("bounce"@, FieldTypeV::SFFloat), ("bounce_velocity"@, FieldTypeV::SFFloat), ("force_dependent_slip"@, FieldTypeV::MFFloat), ("soft_erp"@, FieldTypeV::SFFloat), ("soft_cfm"@, FieldTypeV::SFFloat), ("bump_sound"@, FieldTypeV::SFString), ("roll_sound"@, FieldTypeV::SFString), ("slide_sound"@, FieldTypeV::SFString), ("max_contact_joints"@, FieldTypeV::SFInt32)]
}

fn fields_contact_properties() -> (r: Vec<(String, FieldType)>)
    ensures
        raw_fields_view(r@) == fields_contact_properties_spec(),
{
    let mut v: Vec<(String, FieldType)> = Vec::new();
    v.push(entry("material1", FieldType::SFString));
    v.push(entry("material2", FieldType::SFString));
    v.push(entry("coulomb_friction", FieldType::MFFloat));
    v.push(entry("friction_rotation", FieldType::SFVec2f));
    v.push(entry("rolling_friction", FieldType::SFVec3f));
    v.push(entry("bounce", FieldType::SFFloat));
    v.push(entry("bounce_velocity", FieldType::SFFloat));
    v.push(entry("force_dependent_slip", FieldType::MFFloat));
    v.push(entry("soft_erp", FieldType::SFFloat));
    v.push(entry("soft_cfm", FieldType::SFFloat));
    v.push(entry("bump_sound", FieldType::SFString));
    v.push(entry("roll_sound", FieldType::SFString));
    v.push(entry("slide_sound", FieldType::SFString));
    v.push(entry("max_contact_joints", FieldType::SFInt32));
    proof {
        assert(raw_fields_view(v@) =~= fields_contact_properties_spec());
    }
    v
}

pub open spec fn fields_immersion_properties_spec() -> Seq<RawField> {
    seq![("fluid_name"@, FieldTypeV::SFString), ("reference_area"@, FieldTypeV::SFString), ("drag_force_coefficients"@, FieldTypeV::SFVec3f), ("drag_torque_coefficients"@, FieldTypeV::SFVec3f), ("viscous_resistance_force_coefficient"@, FieldTypeV::SFFloat), ("viscous_resistance_torque_coefficient"@, FieldTypeV::SFFloat)]
}

fn fields_immersion_properties() -> (r: Vec<(String, FieldType)>)
    ensures
        raw_fields_view(r@) == fields_immersion_properties_spec(),
{
    let mut v: Vec<(String, FieldType)> = Vec::new();
    v.push(entry("fluid_name", FieldType::SFString));
    v.push(entry("reference_area", FieldType::SFString));
    v.push(entry("drag_force_coefficients", FieldType::SFVec3f));
    v.push(entry("drag_torque_coefficients", FieldType::SFVec3f));
    v.push(entry("viscous_resistance_force_coefficient", FieldType::SFFloat));
    v.push(entry("viscous_resistance_torque_coefficient", FieldType::SFFloat));
    proof {
        assert(raw_fields_view(v@) =~= fields_immersion_properties_spec());
    }
    v
}

pub open spec fn fields_solid_reference_spec() -> Seq<RawField> {
    seq![("solid_name"@, FieldTypeV::SFString)]
}

fn fields_solid_reference() -> (r: Vec<(String, FieldType)>)
    ensures
        raw_fields_view(r@) == fields_solid_reference_spec(),
{
    let mut v: Vec<(String, FieldType)> = Vec::new();
    v.push(entry("solid_name", FieldType::SFString));
    proof {
        assert(raw_fields_view(v@) =~= fields_solid_reference_spec());
    }
    v
}

pub open spec fn fields_color_spec() -> Seq<RawField> {
    seq![("color"@, FieldTypeV::MFColor)]
}

fn fields_color() -> (r: Vec<(String, FieldType)>)
    ensures
        raw_fields_view(r@) == fields_color_spec(),
{
    let mut v: Vec<(String, FieldType)> = Vec::new();
    v.push(entry("color", FieldType::MFColor));
    proof {
        assert(raw_fields_view(v@) =~= fields_color_spec());
    }
    v
}

pub open spec fn fields_coordinate_spec() -> Seq<RawField> {
    seq![("point"@, FieldTypeV::MFVec3f)]
}

fn fields_coordinate() -> (r: Vec<(String, FieldType)>)
    ensures
        raw_fields_view(r@) == fields_coordinate_spec(),
{
    let mut v: Vec<(String, FieldType)> = Vec::new();
    v.push(entry("point", FieldType::MFVec3f));
    proof {
        assert(raw_fields_view(v@) =~= fields_coordinate_spec());
    }
    v
}

pub open spec fn fields_normal_spec() -> Seq<RawField> {
    seq![("vector"@, FieldTypeV::MFVec3f)]
}

fn fields_normal() -> (r: Vec<(String, FieldType)>)
    ensures
        raw_fields_view(r@) == fields_normal_spec(),
{
    let mut v: Vec<(String, FieldType)> = Vec::new();
    v.push(entry("vector", FieldType::MFVec3f));
    proof {
        assert(raw_fields_view(v@) =~= fields_normal_spec());
    }
    v
}

pub open spec fn fields_texture_coordinate_spec() -> Seq<RawField> {
    seq![("point"@, FieldTypeV::MFVec2f)]
}

fn fields_texture_coordinate() -> (r: Vec<(String, FieldType)>)
    ensures
        raw_fields_view(r@) == fields_texture_coordinate_spec(),
{
    let mut v: Vec<(String, FieldType)> = Vec::new();
    v.push(entry("point", FieldType::MFVec2f));
    proof {
        assert(raw_fields_view(v@) =~= fields_texture_coordinate_spec());
    }
    v
}

pub open spec fn fields_slot_spec() -> Seq<RawField> {
    seq![("type_"@, FieldTypeV::SFString), ("end_point"@, FieldTypeV::SFNode)]
}

fn fields_slot() -> (r: Vec<(String, FieldType)>)
    ensures
        raw_fields_view(r@) == fields_slot_spec(),
{
    let mut v: Vec<(String, FieldType)> = Vec::new();
    v.push(entry("type_", FieldType::SFString));
    v.push(entry("end_point", FieldType::SFNode));
    proof {
        assert(raw_fields_view(v@) =~= fields_slot_spec());
    }
    v
}

pub open spec fn fields_focus_spec() -> Seq<RawField> {
    seq![("focal_distance"@, FieldTypeV::SFFloat), ("focal_length"@, FieldTypeV::SFFloat), ("max_focal_distance"@, FieldTypeV::SFFloat), ("min_focal_distance"@, FieldTypeV::SFFloat)]
}

fn fields_focus() -> (r: Vec<(String, FieldType)>)
    ensures
        raw_fields_view(r@) == fields_focus_spec(),
{
    let mut v: Vec<(String, FieldType)> = Vec::new();
    v.push(entry("focal_distance", FieldType::SFFloat));
    v.push(entry("focal_length", FieldType::SFFloat));
    v.push(entry("max_focal_distance", FieldType::SFFloat));
    v.push(entry("min_focal_distance", FieldType::SFFloat));
    proof {
        assert(raw_fields_view(v@) =~= fields_focus_spec());
    }
    v
}

pub open spec fn fields_lens_spec() -> Seq<RawField> {
    seq![("center"@, FieldTypeV::SFVec2f), ("radial_coefficients"@, FieldTypeV::SFVec2f), ("tangential_coefficients"@, FieldTypeV::SFVec2f)]
}

fn fields_lens() -> (r: Vec<(String, FieldType)>)
    ensures
        raw_fields_view(r@) == fields_lens_spec(),
{
    let mut v: Vec<(String, FieldType)> = Vec::new();
    v.push(entry("center", FieldType::SFVec2f));
    v.push(entry("radial_coefficients", FieldType::SFVec2f));
    v.push(entry("tangential_coefficients", FieldType::SFVec2f));
    proof {
        assert(raw_fields_view(v@) =~= fields_lens_spec());
    }
    v
}

pub open spec fn fields_lens_flare_spec() -> Seq<RawField> {
    seq![("transparency"@, FieldTypeV::SFFloat), ("scale"@, FieldTypeV::SFFloat), ("bias"@, FieldTypeV::SFFloat), ("dispersal"@, FieldTypeV::SFFloat), ("samples"@, FieldTypeV::SFInt32), ("halo_width"@, FieldTypeV::SFFloat), ("chroma_distortion"@, FieldTypeV::SFFloat), ("blur_iterations"@, FieldTypeV::SFInt32)]
}

fn fields_lens_flare() -> (r: Vec<(String, FieldType)>)
    ensures
        raw_fields_view(r@) == fields_lens_flare_spec(),
{
    let mut v: Vec<(String, FieldType)> = Vec::new();
    v.push(entry("transparency", FieldType::SFFloat));
    v.push(entry("scale", FieldType::SFFloat));
    v.push(entry("bias", FieldType::SFFloat));
    v.push(entry("dispersal", FieldType::SFFloat));
    v.push(entry("samples", FieldType::SFInt32));
    v.push(entry("halo_width", FieldType::SFFloat));
    v.push(entry("chroma_distortion", FieldType::SFFloat));
    v.push(entry("blur_iterations", FieldType::SFInt32));
    proof {
        assert(raw_fields_view(v@) =~= fields_lens_flare_spec());
    }
    v
}

pub open spec fn fields_recognition_spec() -> Seq<RawField> {
    seq![("max_range"@, FieldTypeV::SFFloat), ("max_objects"@, FieldTypeV::SFInt32), ("occlusion"@, FieldTypeV::SFInt32), ("frame_color"@, FieldTypeV::SFColor), ("frame_thickness"@, FieldTypeV::SFInt32), ("segmentation"@, FieldTypeV::SFBool)]
}

fn fields_recognition() -> (r: Vec<(String, FieldType)>)
    ensures
        raw_fields_view(r@) == fields_recognition_spec(),
{
    let mut v: Vec<(String, FieldType)> = Vec::new();
    v.push(entry("max_range", FieldType::SFFloat));
    v.push(entry("max_objects", FieldType::SFInt32));
    v.push(entry("occlusion", FieldType::SFInt32));
    v.push(entry("frame_color", FieldType::SFColor));
    v.push(entry("frame_thickness", FieldType::SFInt32));
    v.push(entry("segmentation", FieldType::SFBool));
    proof {
        assert(raw_fields_view(v@) =~= fields_recognition_spec());
    }
    v
}

pub open spec fn fields_zoom_spec() -> Seq<RawField> {
    seq![("max_field_of_view"@, FieldTypeV::SFFloat), ("min_field_of_view"@, FieldTypeV::SFFloat)]
}

fn fields_zoom() -> (r: Vec<(String, FieldType)>)
    ensures
        raw_fields_view(r@) == fields_zoom_spec(),
{
    let mut v: Vec<(String, FieldType)> = Vec::new();
    v.push(entry("max_field_of_view", FieldType::SFFloat));
    v.push(entry("min_field_of_view", FieldType::SFFloat));
    proof {
        assert(raw_fields_view(v@) =~= fields_zoom_spec());
    }
    v
}

pub open spec fn fields_rectangle_arena_spec() -> Seq<RawField> {
    seq![("floor_size"@, FieldTypeV::SFVec2f), ("floor_tile_size"@, FieldTypeV::SFVec2f), ("floor_appearance"@, FieldTypeV::SFString), ("wall_height"@, FieldTypeV::SFFloat)]
}

fn fields_rectangle_arena() -> (r: Vec<(String, FieldType)>)
    ensures
        raw_fields_view(r@) == fields_rectangle_arena_spec(),
{
    let mut v: Vec<(String, FieldType)> = Vec::new();
    v.push(entry("floor_size", FieldType::SFVec2f));
    v.push(entry("floor_tile_size", FieldType::SFVec2f));
    v.push(entry("floor_appearance", FieldType::SFString));
    v.push(entry("wall_height", FieldType::SFFloat));
    proof {
        assert(raw_fields_view(v@) =~= fields_rectangle_arena_spec());
    }
    v
}

/// The declared fields of the built-in node type `name`, if it is one.
pub fn raw_schema_of(name: &str) -> (r: Option<Vec<(String, FieldType)>>)
    ensures
        match r {
            Some(v) => raw_schema(name@) == Some(raw_fields_view(v@)),
            None => raw_schema(name@) is None,
        },
{
    let n = String::from_str(name);
    if n.eq(&String::from_str("WorldInfo")) {
        Some(fields_world_info())
    } else if n.eq(&String::from_str("Viewpoint")) {
        Some(fields_viewpoint())
    } else if n.eq(&String::from_str("Group")) {
        Some(fields_group())
    } else if n.eq(&String::from_str("Pose")) {
        Some(fields_pose())
    } else if n.eq(&String::from_str("Transform")) {
        Some(fields_transform())
    } else if n.eq(&String::from_str("Billboard")) {
        Some(fields_billboard())
    } else if n.eq(&String::from_str("Shape")) {
        Some(fields_shape())
    } else if n.eq(&String::from_str("Appearance")) {
        Some(fields_appearance())
    } else if n.eq(&String::from_str("PBRAppearance")) {
        Some(fields_pbr_appearance())
    } else if n.eq(&String::from_str("Material")) {
        Some(fields_material())
    } else if n.eq(&String::from_str("ImageTexture")) {
        Some(fields_image_texture())
    } else if n.eq(&String::from_str("TextureTransform")) {
        Some(fields_texture_transform())
    } else if n.eq(&String::from_str("Box")) {
        Some(fields_box())
    } else if n.eq(&String::from_str("Sphere")) {
        Some(fields_sphere())
    } else if n.eq(&String::from_str("Capsule")) {
        Some(fields_capsule())
    } else if n.eq(&String::from_str("Cylinder")) {
        Some(fields_cylinder())
    } else if n.eq(&String::from_str("Plane")) {
        Some(fields_plane())
    } else if n.eq(&String::from_str("Cone")) {
        Some(fields_cone())
    } else if n.eq(&String::from_str("ElevationGrid")) {
        Some(fields_elevation_grid())
    } else if n.eq(&String::from_str("IndexedFaceSet")) {
        Some(fields_indexed_face_set())
    } else if n.eq(&String::from_str("IndexedLineSet")) {
        Some(fields_indexed_line_set())
    } else if n.eq(&String::from_str("PointSet")) {
        Some(fields_point_set())
    } else if n.eq(&String::from_str("Mesh")) {
        Some(fields_mesh())
    } else if n.eq(&String::from_str("CadShape")) {
        Some(fields_cad_shape())
    } else if n.eq(&String::from_str("Robot")) {
        Some(fields_robot())
    } else if n.eq(&String::from_str("Solid")) {
        Some(fields_solid())
    } else if n.eq(&String::from_str("Fluid")) {
        Some(fields_fluid())
    } else if n.eq(&String::from_str("Accelerometer")) {
        Some(fields_accelerometer())
    } else if n.eq(&String::from_str("Altimeter")) {
        Some(fields_altimeter())
    } else if n.eq(&String::from_str("Camera")) {
        Some(fields_camera())
    } else if n.eq(&String::from_str("Compass")) {
        Some(fields_compass())
    } else if n.eq(&String::from_str("DistanceSensor")) {
        Some(fields_distance_sensor())
    } else if n.eq(&String::from_str("GPS")) {
        Some(fields_gps())
    } else if n.eq(&String::from_str("Gyro")) {
        Some(fields_gyro())
    } else if n.eq(&String::from_str("InertialUnit")) {
        Some(fields_inertial_unit())
    } else if n.eq(&String::from_str("Lidar")) {
        Some(fields_lidar())
    } else if n.eq(&String::from_str("LightSensor")) {
        Some(fields_light_sensor())
    } else if n.eq(&String::from_str("PositionSensor")) {
        Some(fields_position_sensor())
    } else if n.eq(&String::from_str("Radar")) {
        Some(fields_radar())
    } else if n.eq(&String::from_str("RangeFinder")) {
        Some(fields_range_finder())
    } else if n.eq(&String::from_str("TouchSensor")) {
        Some(fields_touch_sensor())
    } else if n.eq(&String::from_str("RotationalMotor")) {
        Some(fields_rotational_motor())
    } else if n.eq(&String::from_str("LinearMotor")) {
        Some(fields_linear_motor())
    } else if n.eq(&String::from_str("Brake")) {
        Some(fields_brake())
    } else if n.eq(&String::from_str("Propeller")) {
        Some(fields_propeller())
    } else if n.eq(&String::from_str("Muscle")) {
        Some(fields_muscle())
    } else if n.eq(&String::from_str("HingeJoint")) {
        Some(fields_hinge_joint())
    } else if n.eq(&String::from_str("Hinge2Joint")) {
        Some(fields_hinge2_joint())
    } else if n.eq(&String::from_str("BallJoint")) {
        Some(fields_ball_joint())
    } else if n.eq(&String::from_str("SliderJoint")) {
        Some(fields_slider_joint())
    } else if n.eq(&String::from_str("JointParameters")) {
        Some(fields_joint_parameters())
    } else if n.eq(&String::from_str("HingeJointParameters")) {
        Some(fields_hinge_joint_parameters())
    } else if n.eq(&String::from_str("BallJointParameters")) {
        Some(fields_ball_joint_parameters())
    } else if n.eq(&String::from_str("LED")) {
        Some(fields_led())
    } else if n.eq(&String::from_str("Emitter")) {
        Some(fields_emitter())
    } else if n.eq(&String::from_str("Receiver")) {
        Some(fields_receiver())
    } else if n.eq(&String::from_str("Connector")) {
        Some(fields_connector())
    } else if n.eq(&String::from_str("Display")) {
        Some(fields_display())
    } else if n.eq(&String::from_str("Pen")) {
        Some(fields_pen())
    } else if n.eq(&String::from_str("Speaker")) {
        Some(fields_speaker())
    } else if n.eq(&String::from_str("Charger")) {
        Some(fields_charger())
    } else if n.eq(&String::from_str("VacuumGripper")) {
        Some(fields_vacuum_gripper())
    } else if n.eq(&String::from_str("Track")) {
        Some(fields_track())
    } else if n.eq(&String::from_str("TrackWheel")) {
        Some(fields_track_wheel())
    } else if n.eq(&String::from_str("Skin")) {
        Some(fields_skin())
    } else if n.eq(&String::from_str("Background")) {
        Some(fields_background())
    } else if n.eq(&String::from_str("Fog")) {
        Some(fields_fog())
    } else if n.eq(&String::from_str("DirectionalLight")) {
        Some(fields_directional_light())
    } else if n.eq(&String::from_str("PointLight")) {
        Some(fields_point_light())
    } else if n.eq(&String::from_str("SpotLight")) {
        Some(fields_spot_light())
    } else if n.eq(&String::from_str("Physics")) {
        Some(fields_physics())
    } else if n.eq(&String::from_str("Damping")) {
        Some(fields_damping())
    } else if n.eq(&String::from_str("ContactProperties")) {
        Some(fields_contact_properties())
    } else if n.eq(&String::from_str("ImmersionProperties")) {
        Some(fields_immersion_properties())
    } else if n.eq(&String::from_str("SolidReference")) {
        Some(fields_solid_reference())
    } else if n.eq(&String::from_str("Color")) {
        Some(fields_color())
    } else if n.eq(&String::from_str("Coordinate")) {
        Some(fields_coordinate())
    } else if n.eq(&String::from_str("Normal")) {
        Some(fields_normal())
    } else if n.eq(&String::from_str("TextureCoordinate")) {
        Some(fields_texture_coordinate())
    } else if n.eq(&String::from_str("Slot")) {
        Some(fields_slot())
    } else if n.eq(&String::from_str("Focus")) {
        Some(fields_focus())
    } else if n.eq(&String::from_str("Lens")) {
        Some(fields_lens())
    } else if n.eq(&String::from_str("LensFlare")) {
        Some(fields_lens_flare())
    } else if n.eq(&String::from_str("Recognition")) {
        Some(fields_recognition())
    } else if n.eq(&String::from_str("Zoom")) {
        Some(fields_zoom())
    } else if n.eq(&String::from_str("RectangleArena")) {
        Some(fields_rectangle_arena())
    } else {
        None
    }
}

} // verus!
