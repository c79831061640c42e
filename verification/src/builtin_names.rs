//! The declared field names of the built-in node tables are ASCII, so their PROTO
//! names hold no `_`.
use crate::builtin_nodes::{raw_schema, RawField, fields_world_info_spec, fields_viewpoint_spec, fields_group_spec, fields_pose_spec, fields_transform_spec, fields_billboard_spec, fields_shape_spec, fields_appearance_spec, fields_pbr_appearance_spec, fields_material_spec, fields_image_texture_spec, fields_texture_transform_spec, fields_box_spec, fields_sphere_spec, fields_capsule_spec, fields_cylinder_spec, fields_plane_spec, fields_cone_spec, fields_elevation_grid_spec, fields_indexed_face_set_spec, fields_indexed_line_set_spec, fields_point_set_spec, fields_mesh_spec, fields_cad_shape_spec, fields_robot_spec, fields_solid_spec, fields_fluid_spec, fields_accelerometer_spec, fields_altimeter_spec, fields_camera_spec, fields_compass_spec, fields_distance_sensor_spec, fields_gps_spec, fields_gyro_spec, fields_inertial_unit_spec, fields_lidar_spec, fields_light_sensor_spec, fields_position_sensor_spec, fields_radar_spec, fields_range_finder_spec, fields_touch_sensor_spec, fields_rotational_motor_spec, fields_linear_motor_spec, fields_brake_spec, fields_propeller_spec, fields_muscle_spec, fields_hinge_joint_spec, fields_hinge2_joint_spec, fields_ball_joint_spec, fields_slider_joint_spec, fields_joint_parameters_spec, fields_hinge_joint_parameters_spec, fields_ball_joint_parameters_spec, fields_led_spec, fields_emitter_spec, fields_receiver_spec, fields_connector_spec, fields_display_spec, fields_pen_spec, fields_speaker_spec, fields_charger_spec, fields_vacuum_gripper_spec, fields_track_spec, fields_track_wheel_spec, fields_skin_spec, fields_background_spec, fields_fog_spec, fields_directional_light_spec, fields_point_light_spec, fields_spot_light_spec, fields_physics_spec, fields_damping_spec, fields_contact_properties_spec, fields_immersion_properties_spec, fields_solid_reference_spec, fields_color_spec, fields_coordinate_spec, fields_normal_spec, fields_texture_coordinate_spec, fields_slot_spec, fields_focus_spec, fields_lens_spec, fields_lens_flare_spec, fields_recognition_spec, fields_zoom_spec, fields_rectangle_arena_spec};
use crate::schema::{builtin_schema, camel_name, is_ascii_text, lemma_camel_name_ascii, proto_named};
use vstd::prelude::*;

verus! {

/// Every declared field name of `t` is ASCII text.
#[verifier::opaque]
pub open spec fn ascii_names(t: Seq<RawField>) -> bool {
    forall|i: int| 0 <= i < t.len() ==> is_ascii_text(#[trigger] t[i].0)
}

proof fn lemma_ascii_world_info()
    ensures
        ascii_names(fields_world_info_spec()),
{
    reveal(ascii_names);
    reveal_strlit("basic_time_step");
    reveal_strlit("cfm");
    reveal_strlit("contact_properties");
    reveal_strlit("coordinate_system");
    reveal_strlit("default_damping");
    reveal_strlit("drag_force_scale");
    reveal_strlit("drag_torque_scale");
    reveal_strlit("erp");
    reveal_strlit("fps");
    reveal_strlit("gps_coordinate_system");
    reveal_strlit("gps_reference");
    reveal_strlit("gravity");
    reveal_strlit("info");
    reveal_strlit("ink_evaporation");
    reveal_strlit("line_scale");
    reveal_strlit("optimal_thread_count");
    reveal_strlit("physics");
    reveal_strlit("physics_disable_angular_threshold");
    reveal_strlit("physics_disable_linear_threshold");
    reveal_strlit("physics_disable_time");
    reveal_strlit("random_seed");
    reveal_strlit("title");
    reveal_strlit("window");
    assert(is_ascii_text("basic_time_step"@));
    assert(is_ascii_text("cfm"@));
    assert(is_ascii_text("contact_properties"@));
    assert(is_ascii_text("coordinate_system"@));
    assert(is_ascii_text("default_damping"@));
    assert(is_ascii_text("drag_force_scale"@));
    assert(is_ascii_text("drag_torque_scale"@));
    assert(is_ascii_text("erp"@));
    assert(is_ascii_text("fps"@));
    assert(is_ascii_text("gps_coordinate_system"@));
    assert(is_ascii_text("gps_reference"@));
    assert(is_ascii_text("gravity"@));
    assert(is_ascii_text("info"@));
    assert(is_ascii_text("ink_evaporation"@));
    assert(is_ascii_text("line_scale"@));
    assert(is_ascii_text("optimal_thread_count"@));
    assert(is_ascii_text("physics"@));
    assert(is_ascii_text("physics_disable_angular_threshold"@));
    assert(is_ascii_text("physics_disable_linear_threshold"@));
    assert(is_ascii_text("physics_disable_time"@));
    assert(is_ascii_text("random_seed"@));
    assert(is_ascii_text("title"@));
    assert(is_ascii_text("window"@));
    let t = fields_world_info_spec();
    assert forall|i: int| 0 <= i < t.len() implies is_ascii_text(#[trigger] t[i].0) by { if i == 0 {} else if i == 1 {} else if i == 2 {} else if i == 3 {} else if i == 4 {} else if i == 5 {} else if i == 6 {} else if i == 7 {} else if i == 8 {} else if i == 9 {} else if i == 10 {} else if i == 11 {} else if i == 12 {} else if i == 13 {} else if i == 14 {} else if i == 15 {} else if i == 16 {} else if i == 17 {} else if i == 18 {} else if i == 19 {} else if i == 20 {} else if i == 21 {} else {} }
}

proof fn lemma_ascii_viewpoint()
    ensures
        ascii_names(fields_viewpoint_spec()),
{
    reveal(ascii_names);
    reveal_strlit("ambient_occlusion_radius");
    reveal_strlit("bloom_threshold");
    reveal_strlit("description");
    reveal_strlit("exposure");
    reveal_strlit("far");
    reveal_strlit("field_of_view");
    reveal_strlit("follow");
    reveal_strlit("follow_smoothness");
    reveal_strlit("follow_type");
    reveal_strlit("near");
    reveal_strlit("orientation");
    reveal_strlit("position");
    assert(is_ascii_text("ambient_occlusion_radius"@));
    assert(is_ascii_text("bloom_threshold"@));
    assert(is_ascii_text("description"@));
    assert(is_ascii_text("exposure"@));
    assert(is_ascii_text("far"@));
    assert(is_ascii_text("field_of_view"@));
    assert(is_ascii_text("follow"@));
    assert(is_ascii_text("follow_smoothness"@));
    assert(is_ascii_text("follow_type"@));
    assert(is_ascii_text("near"@));
    assert(is_ascii_text("orientation"@));
    assert(is_ascii_text("position"@));
    let t = fields_viewpoint_spec();
    assert forall|i: int| 0 <= i < t.len() implies is_ascii_text(#[trigger] t[i].0) by { if i == 0 {} else if i == 1 {} else if i == 2 {} else if i == 3 {} else if i == 4 {} else if i == 5 {} else if i == 6 {} else if i == 7 {} else if i == 8 {} else if i == 9 {} else if i == 10 {} else {} }
}

proof fn lemma_ascii_group()
    ensures
        ascii_names(fields_group_spec()),
{
    reveal(ascii_names);
    reveal_strlit("children");
    assert(is_ascii_text("children"@));
    let t = fields_group_spec();
    assert forall|i: int| 0 <= i < t.len() implies is_ascii_text(#[trigger] t[i].0) by { {} }
}

proof fn lemma_ascii_pose()
    ensures
        ascii_names(fields_pose_spec()),
{
    reveal(ascii_names);
    reveal_strlit("children");
    reveal_strlit("rotation");
    reveal_strlit("translation");
    assert(is_ascii_text("children"@));
    assert(is_ascii_text("rotation"@));
    assert(is_ascii_text("translation"@));
    let t = fields_pose_spec();
    assert forall|i: int| 0 <= i < t.len() implies is_ascii_text(#[trigger] t[i].0) by { if i == 0 {} else if i == 1 {} else {} }
}

proof fn lemma_ascii_transform()
    ensures
        ascii_names(fields_transform_spec()),
{
    reveal(ascii_names);
    reveal_strlit("children");
    reveal_strlit("rotation");
    reveal_strlit("scale");
    reveal_strlit("translation");
    assert(is_ascii_text("children"@));
    assert(is_ascii_text("rotation"@));
    assert(is_ascii_text("scale"@));
    assert(is_ascii_text("translation"@));
    let t = fields_transform_spec();
    assert forall|i: int| 0 <= i < t.len() implies is_ascii_text(#[trigger] t[i].0) by { if i == 0 {} else if i == 1 {} else if i == 2 {} else {} }
}

proof fn lemma_ascii_billboard()
    ensures
        ascii_names(fields_billboard_spec()),
{
    reveal(ascii_names);
    reveal_strlit("children");
    assert(is_ascii_text("children"@));
    let t = fields_billboard_spec();
    assert forall|i: int| 0 <= i < t.len() implies is_ascii_text(#[trigger] t[i].0) by { {} }
}

proof fn lemma_ascii_shape()
    ensures
        ascii_names(fields_shape_spec()),
{
    reveal(ascii_names);
    reveal_strlit("appearance");
    reveal_strlit("cast_shadows");
    reveal_strlit("geometry");
    reveal_strlit("is_pickable");
    assert(is_ascii_text("appearance"@));
    assert(is_ascii_text("cast_shadows"@));
    assert(is_ascii_text("geometry"@));
    assert(is_ascii_text("is_pickable"@));
    let t = fields_shape_spec();
    assert forall|i: int| 0 <= i < t.len() implies is_ascii_text(#[trigger] t[i].0) by { if i == 0 {} else if i == 1 {} else if i == 2 {} else {} }
}

proof fn lemma_ascii_appearance()
    ensures
        ascii_names(fields_appearance_spec()),
{
    reveal(ascii_names);
    reveal_strlit("material");
    reveal_strlit("texture");
    reveal_strlit("texture_transform");
    assert(is_ascii_text("material"@));
    assert(is_ascii_text("texture"@));
    assert(is_ascii_text("texture_transform"@));
    let t = fields_appearance_spec();
    assert forall|i: int| 0 <= i < t.len() implies is_ascii_text(#[trigger] t[i].0) by { if i == 0 {} else if i == 1 {} else {} }
}

proof fn lemma_ascii_pbr_appearance()
    ensures
        ascii_names(fields_pbr_appearance_spec()),
{
    reveal(ascii_names);
    reveal_strlit("base_color");
    reveal_strlit("base_color_map");
    reveal_strlit("emissive_color");
    reveal_strlit("emissive_color_map");
    reveal_strlit("emissive_intensity");
    reveal_strlit("ibl_strength");
    reveal_strlit("metalness");
    reveal_strlit("metalness_map");
    reveal_strlit("normal_map");
    reveal_strlit("normal_map_factor");
    reveal_strlit("occlusion_map");
    reveal_strlit("occlusion_map_strength");
    reveal_strlit("roughness");
    reveal_strlit("roughness_map");
    reveal_strlit("texture_transform");
    reveal_strlit("transparency");
    assert(is_ascii_text("base_color"@));
    assert(is_ascii_text("base_color_map"@));
    assert(is_ascii_text("emissive_color"@));
    assert(is_ascii_text("emissive_color_map"@));
    assert(is_ascii_text("emissive_intensity"@));
    assert(is_ascii_text("ibl_strength"@));
    assert(is_ascii_text("metalness"@));
    assert(is_ascii_text("metalness_map"@));
    assert(is_ascii_text("normal_map"@));
    assert(is_ascii_text("normal_map_factor"@));
    assert(is_ascii_text("occlusion_map"@));
    assert(is_ascii_text("occlusion_map_strength"@));
    assert(is_ascii_text("roughness"@));
    assert(is_ascii_text("roughness_map"@));
    assert(is_ascii_text("texture_transform"@));
    assert(is_ascii_text("transparency"@));
    let t = fields_pbr_appearance_spec();
    assert forall|i: int| 0 <= i < t.len() implies is_ascii_text(#[trigger] t[i].0) by { if i == 0 {} else if i == 1 {} else if i == 2 {} else if i == 3 {} else if i == 4 {} else if i == 5 {} else if i == 6 {} else if i == 7 {} else if i == 8 {} else if i == 9 {} else if i == 10 {} else if i == 11 {} else if i == 12 {} else if i == 13 {} else if i == 14 {} else {} }
}

proof fn lemma_ascii_material()
    ensures
        ascii_names(fields_material_spec()),
{
    reveal(ascii_names);
    reveal_strlit("ambient_intensity");
    reveal_strlit("diffuse_color");
    reveal_strlit("emissive_color");
    reveal_strlit("shininess");
    reveal_strlit("specular_color");
    reveal_strlit("transparency");
    assert(is_ascii_text("ambient_intensity"@));
    assert(is_ascii_text("diffuse_color"@));
    assert(is_ascii_text("emissive_color"@));
    assert(is_ascii_text("shininess"@));
    assert(is_ascii_text("specular_color"@));
    assert(is_ascii_text("transparency"@));
    let t = fields_material_spec();
    assert forall|i: int| 0 <= i < t.len() implies is_ascii_text(#[trigger] t[i].0) by { if i == 0 {} else if i == 1 {} else if i == 2 {} else if i == 3 {} else if i == 4 {} else {} }
}

proof fn lemma_ascii_image_texture()
    ensures
        ascii_names(fields_image_texture_spec()),
{
    reveal(ascii_names);
    reveal_strlit("filtering");
    reveal_strlit("repeat_s");
    reveal_strlit("repeat_t");
    reveal_strlit("url");
    assert(is_ascii_text("filtering"@));
    assert(is_ascii_text("repeat_s"@));
    assert(is_ascii_text("repeat_t"@));
    assert(is_ascii_text("url"@));
    let t = fields_image_texture_spec();
    assert forall|i: int| 0 <= i < t.len() implies is_ascii_text(#[trigger] t[i].0) by { if i == 0 {} else if i == 1 {} else if i == 2 {} else {} }
}

proof fn lemma_ascii_texture_transform()
    ensures
        ascii_names(fields_texture_transform_spec()),
{
    reveal(ascii_names);
    reveal_strlit("center");
    reveal_strlit("rotation");
    reveal_strlit("scale");
    reveal_strlit("translation");
    assert(is_ascii_text("center"@));
    assert(is_ascii_text("rotation"@));
    assert(is_ascii_text("scale"@));
    assert(is_ascii_text("translation"@));
    let t = fields_texture_transform_spec();
    assert forall|i: int| 0 <= i < t.len() implies is_ascii_text(#[trigger] t[i].0) by { if i == 0 {} else if i == 1 {} else if i == 2 {} else {} }
}

proof fn lemma_ascii_box()
    ensures
        ascii_names(fields_box_spec()),
{
    reveal(ascii_names);
    reveal_strlit("size");
    assert(is_ascii_text("size"@));
    let t = fields_box_spec();
    assert forall|i: int| 0 <= i < t.len() implies is_ascii_text(#[trigger] t[i].0) by { {} }
}

proof fn lemma_ascii_sphere()
    ensures
        ascii_names(fields_sphere_spec()),
{
    reveal(ascii_names);
    reveal_strlit("ico");
    reveal_strlit("radius");
    reveal_strlit("subdivision");
    assert(is_ascii_text("ico"@));
    assert(is_ascii_text("radius"@));
    assert(is_ascii_text("subdivision"@));
    let t = fields_sphere_spec();
    assert forall|i: int| 0 <= i < t.len() implies is_ascii_text(#[trigger] t[i].0) by { if i == 0 {} else if i == 1 {} else {} }
}

proof fn lemma_ascii_capsule()
    ensures
        ascii_names(fields_capsule_spec()),
{
    reveal(ascii_names);
    reveal_strlit("bottom");
    reveal_strlit("height");
    reveal_strlit("radius");
    reveal_strlit("side");
    reveal_strlit("subdivision");
    reveal_strlit("top");
    assert(is_ascii_text("bottom"@));
    assert(is_ascii_text("height"@));
    assert(is_ascii_text("radius"@));
    assert(is_ascii_text("side"@));
    assert(is_ascii_text("subdivision"@));
    assert(is_ascii_text("top"@));
    let t = fields_capsule_spec();
    assert forall|i: int| 0 <= i < t.len() implies is_ascii_text(#[trigger] t[i].0) by { if i == 0 {} else if i == 1 {} else if i == 2 {} else if i == 3 {} else if i == 4 {} else {} }
}

proof fn lemma_ascii_cylinder()
    ensures
        ascii_names(fields_cylinder_spec()),
{
    reveal(ascii_names);
    reveal_strlit("bottom");
    reveal_strlit("height");
    reveal_strlit("radius");
    reveal_strlit("side");
    reveal_strlit("subdivision");
    reveal_strlit("top");
    assert(is_ascii_text("bottom"@));
    assert(is_ascii_text("height"@));
    assert(is_ascii_text("radius"@));
    assert(is_ascii_text("side"@));
    assert(is_ascii_text("subdivision"@));
    assert(is_ascii_text("top"@));
    let t = fields_cylinder_spec();
    assert forall|i: int| 0 <= i < t.len() implies is_ascii_text(#[trigger] t[i].0) by { if i == 0 {} else if i == 1 {} else if i == 2 {} else if i == 3 {} else if i == 4 {} else {} }
}

proof fn lemma_ascii_plane()
    ensures
        ascii_names(fields_plane_spec()),
{
    reveal(ascii_names);
    reveal_strlit("size");
    assert(is_ascii_text("size"@));
    let t = fields_plane_spec();
    assert forall|i: int| 0 <= i < t.len() implies is_ascii_text(#[trigger] t[i].0) by { {} }
}

proof fn lemma_ascii_cone()
    ensures
        ascii_names(fields_cone_spec()),
{
    reveal(ascii_names);
    reveal_strlit("bottom");
    reveal_strlit("bottom_radius");
    reveal_strlit("height");
    reveal_strlit("side");
    reveal_strlit("subdivision");
    assert(is_ascii_text("bottom"@));
    assert(is_ascii_text("bottom_radius"@));
    assert(is_ascii_text("height"@));
    assert(is_ascii_text("side"@));
    assert(is_ascii_text("subdivision"@));
    let t = fields_cone_spec();
    assert forall|i: int| 0 <= i < t.len() implies is_ascii_text(#[trigger] t[i].0) by { if i == 0 {} else if i == 1 {} else if i == 2 {} else if i == 3 {} else {} }
}

proof fn lemma_ascii_elevation_grid()
    ensures
        ascii_names(fields_elevation_grid_spec()),
{
    reveal(ascii_names);
    reveal_strlit("height");
    reveal_strlit("thickness");
    reveal_strlit("x_dimension");
    reveal_strlit("x_spacing");
    reveal_strlit("z_dimension");
    reveal_strlit("z_spacing");
    assert(is_ascii_text("height"@));
    assert(is_ascii_text("thickness"@));
    assert(is_ascii_text("x_dimension"@));
    assert(is_ascii_text("x_spacing"@));
    assert(is_ascii_text("z_dimension"@));
    assert(is_ascii_text("z_spacing"@));
    let t = fields_elevation_grid_spec();
    assert forall|i: int| 0 <= i < t.len() implies is_ascii_text(#[trigger] t[i].0) by { if i == 0 {} else if i == 1 {} else if i == 2 {} else if i == 3 {} else if i == 4 {} else {} }
}

proof fn lemma_ascii_indexed_face_set()
    ensures
        ascii_names(fields_indexed_face_set_spec()),
{
    reveal(ascii_names);
    reveal_strlit("convex");
    reveal_strlit("coord");
    reveal_strlit("coord_index");
    reveal_strlit("crease_angle");
    reveal_strlit("normal");
    reveal_strlit("normal_index");
    reveal_strlit("solid");
    reveal_strlit("tex_coord");
    reveal_strlit("tex_coord_index");
    assert(is_ascii_text("convex"@));
    assert(is_ascii_text("coord"@));
    assert(is_ascii_text("coord_index"@));
    assert(is_ascii_text("crease_angle"@));
    assert(is_ascii_text("normal"@));
    assert(is_ascii_text("normal_index"@));
    assert(is_ascii_text("solid"@));
    assert(is_ascii_text("tex_coord"@));
    assert(is_ascii_text("tex_coord_index"@));
    let t = fields_indexed_face_set_spec();
    assert forall|i: int| 0 <= i < t.len() implies is_ascii_text(#[trigger] t[i].0) by { if i == 0 {} else if i == 1 {} else if i == 2 {} else if i == 3 {} else if i == 4 {} else if i == 5 {} else if i == 6 {} else if i == 7 {} else {} }
}

proof fn lemma_ascii_indexed_line_set()
    ensures
        ascii_names(fields_indexed_line_set_spec()),
{
    reveal(ascii_names);
    reveal_strlit("coord");
    reveal_strlit("coord_index");
    assert(is_ascii_text("coord"@));
    assert(is_ascii_text("coord_index"@));
    let t = fields_indexed_line_set_spec();
    assert forall|i: int| 0 <= i < t.len() implies is_ascii_text(#[trigger] t[i].0) by { if i == 0 {} else {} }
}

proof fn lemma_ascii_point_set()
    ensures
        ascii_names(fields_point_set_spec()),
{
    reveal(ascii_names);
    reveal_strlit("color");
    reveal_strlit("coord");
    assert(is_ascii_text("color"@));
    assert(is_ascii_text("coord"@));
    let t = fields_point_set_spec();
    assert forall|i: int| 0 <= i < t.len() implies is_ascii_text(#[trigger] t[i].0) by { if i == 0 {} else {} }
}

proof fn lemma_ascii_mesh()
    ensures
        ascii_names(fields_mesh_spec()),
{
    reveal(ascii_names);
    reveal_strlit("material_index");
    reveal_strlit("url");
    assert(is_ascii_text("material_index"@));
    assert(is_ascii_text("url"@));
    let t = fields_mesh_spec();
    assert forall|i: int| 0 <= i < t.len() implies is_ascii_text(#[trigger] t[i].0) by { if i == 0 {} else {} }
}

proof fn lemma_ascii_cad_shape()
    ensures
        ascii_names(fields_cad_shape_spec()),
{
    reveal(ascii_names);
    reveal_strlit("cast_shadows");
    reveal_strlit("ccw");
    reveal_strlit("is_pickable");
    reveal_strlit("url");
    assert(is_ascii_text("cast_shadows"@));
    assert(is_ascii_text("ccw"@));
    assert(is_ascii_text("is_pickable"@));
    assert(is_ascii_text("url"@));
    let t = fields_cad_shape_spec();
    assert forall|i: int| 0 <= i < t.len() implies is_ascii_text(#[trigger] t[i].0) by { if i == 0 {} else if i == 1 {} else if i == 2 {} else {} }
}

proof fn lemma_ascii_robot()
    ensures
        ascii_names(fields_robot_spec()),
{
    reveal(ascii_names);
    reveal_strlit("angularVelocity");
    reveal_strlit("battery");
    reveal_strlit("boundingObject");
    reveal_strlit("children");
    reveal_strlit("contactMaterial");
    reveal_strlit("controller");
    reveal_strlit("controller_args");
    reveal_strlit("cpu_consumption");
    reveal_strlit("custom_data");
    reveal_strlit("description");
    reveal_strlit("immersionProperties");
    reveal_strlit("linearVelocity");
    reveal_strlit("locked");
    reveal_strlit("model");
    reveal_strlit("name");
    reveal_strlit("physics");
    reveal_strlit("radarCrossSection");
    reveal_strlit("recognitionColors");
    reveal_strlit("remote_control");
    reveal_strlit("rotation");
    reveal_strlit("self_collision");
    reveal_strlit("supervisor");
    reveal_strlit("synchronization");
    reveal_strlit("translation");
    reveal_strlit("window");
    assert(is_ascii_text("angularVelocity"@));
    assert(is_ascii_text("battery"@));
    assert(is_ascii_text("boundingObject"@));
    assert(is_ascii_text("children"@));
    assert(is_ascii_text("contactMaterial"@));
    assert(is_ascii_text("controller"@));
    assert(is_ascii_text("controller_args"@));
    assert(is_ascii_text("cpu_consumption"@));
    assert(is_ascii_text("custom_data"@));
    assert(is_ascii_text("description"@));
    assert(is_ascii_text("immersionProperties"@));
    assert(is_ascii_text("linearVelocity"@));
    assert(is_ascii_text("locked"@));
    assert(is_ascii_text("model"@));
    assert(is_ascii_text("name"@));
    assert(is_ascii_text("physics"@));
    assert(is_ascii_text("radarCrossSection"@));
    assert(is_ascii_text("recognitionColors"@));
    assert(is_ascii_text("remote_control"@));
    assert(is_ascii_text("rotation"@));
    assert(is_ascii_text("self_collision"@));
    assert(is_ascii_text("supervisor"@));
    assert(is_ascii_text("synchronization"@));
    assert(is_ascii_text("translation"@));
    assert(is_ascii_text("window"@));
    let t = fields_robot_spec();
    assert forall|i: int| 0 <= i < t.len() implies is_ascii_text(#[trigger] t[i].0) by { if i == 0 {} else if i == 1 {} else if i == 2 {} else if i == 3 {} else if i == 4 {} else if i == 5 {} else if i == 6 {} else if i == 7 {} else if i == 8 {} else if i == 9 {} else if i == 10 {} else if i == 11 {} else if i == 12 {} else if i == 13 {} else if i == 14 {} else if i == 15 {} else if i == 16 {} else if i == 17 {} else if i == 18 {} else if i == 19 {} else if i == 20 {} else if i == 21 {} else if i == 22 {} else if i == 23 {} else {} }
}

proof fn lemma_ascii_solid()
    ensures
        ascii_names(fields_solid_spec()),
{
    reveal(ascii_names);
    reveal_strlit("angularVelocity");
    reveal_strlit("boundingObject");
    reveal_strlit("children");
    reveal_strlit("contactMaterial");
    reveal_strlit("description");
    reveal_strlit("immersionProperties");
    reveal_strlit("linearVelocity");
    reveal_strlit("locked");
    reveal_strlit("model");
    reveal_strlit("name");
    reveal_strlit("physics");
    reveal_strlit("radarCrossSection");
    reveal_strlit("recognitionColors");
    reveal_strlit("rotation");
    reveal_strlit("translation");
    assert(is_ascii_text("angularVelocity"@));
    assert(is_ascii_text("boundingObject"@));
    assert(is_ascii_text("children"@));
    assert(is_ascii_text("contactMaterial"@));
    assert(is_ascii_text("description"@));
    assert(is_ascii_text("immersionProperties"@));
    assert(is_ascii_text("linearVelocity"@));
    assert(is_ascii_text("locked"@));
    assert(is_ascii_text("model"@));
    assert(is_ascii_text("name"@));
    assert(is_ascii_text("physics"@));
    assert(is_ascii_text("radarCrossSection"@));
    assert(is_ascii_text("recognitionColors"@));
    assert(is_ascii_text("rotation"@));
    assert(is_ascii_text("translation"@));
    let t = fields_solid_spec();
    assert forall|i: int| 0 <= i < t.len() implies is_ascii_text(#[trigger] t[i].0) by { if i == 0 {} else if i == 1 {} else if i == 2 {} else if i == 3 {} else if i == 4 {} else if i == 5 {} else if i == 6 {} else if i == 7 {} else if i == 8 {} else if i == 9 {} else if i == 10 {} else if i == 11 {} else if i == 12 {} else if i == 13 {} else {} }
}

proof fn lemma_ascii_fluid()
    ensures
        ascii_names(fields_fluid_spec()),
{
    reveal(ascii_names);
    reveal_strlit("angularVelocity");
    reveal_strlit("boundingObject");
    reveal_strlit("children");
    reveal_strlit("contactMaterial");
    reveal_strlit("density");
    reveal_strlit("description");
    reveal_strlit("immersionProperties");
    reveal_strlit("linearVelocity");
    reveal_strlit("locked");
    reveal_strlit("model");
    reveal_strlit("name");
    reveal_strlit("physics");
    reveal_strlit("radarCrossSection");
    reveal_strlit("recognitionColors");
    reveal_strlit("rotation");
    reveal_strlit("stream_velocity");
    reveal_strlit("translation");
    reveal_strlit("viscosity");
    assert(is_ascii_text("angularVelocity"@));
    assert(is_ascii_text("boundingObject"@));
    assert(is_ascii_text("children"@));
    assert(is_ascii_text("contactMaterial"@));
    assert(is_ascii_text("density"@));
    assert(is_ascii_text("description"@));
    assert(is_ascii_text("immersionProperties"@));
    assert(is_ascii_text("linearVelocity"@));
    assert(is_ascii_text("locked"@));
    assert(is_ascii_text("model"@));
    assert(is_ascii_text("name"@));
    assert(is_ascii_text("physics"@));
    assert(is_ascii_text("radarCrossSection"@));
    assert(is_ascii_text("recognitionColors"@));
    assert(is_ascii_text("rotation"@));
    assert(is_ascii_text("stream_velocity"@));
    assert(is_ascii_text("translation"@));
    assert(is_ascii_text("viscosity"@));
    let t = fields_fluid_spec();
    assert forall|i: int| 0 <= i < t.len() implies is_ascii_text(#[trigger] t[i].0) by { if i == 0 {} else if i == 1 {} else if i == 2 {} else if i == 3 {} else if i == 4 {} else if i == 5 {} else if i == 6 {} else if i == 7 {} else if i == 8 {} else if i == 9 {} else if i == 10 {} else if i == 11 {} else if i == 12 {} else if i == 13 {} else if i == 14 {} else if i == 15 {} else if i == 16 {} else {} }
}

proof fn lemma_ascii_accelerometer()
    ensures
        ascii_names(fields_accelerometer_spec()),
{
    reveal(ascii_names);
    reveal_strlit("angularVelocity");
    reveal_strlit("boundingObject");
    reveal_strlit("children");
    reveal_strlit("contactMaterial");
    reveal_strlit("description");
    reveal_strlit("immersionProperties");
    reveal_strlit("linearVelocity");
    reveal_strlit("locked");
    reveal_strlit("lookup_table");
    reveal_strlit("model");
    reveal_strlit("name");
    reveal_strlit("physics");
    reveal_strlit("radarCrossSection");
    reveal_strlit("recognitionColors");
    reveal_strlit("resolution");
    reveal_strlit("rotation");
    reveal_strlit("translation");
    reveal_strlit("x_axis");
    reveal_strlit("y_axis");
    reveal_strlit("z_axis");
    assert(is_ascii_text("angularVelocity"@));
    assert(is_ascii_text("boundingObject"@));
    assert(is_ascii_text("children"@));
    assert(is_ascii_text("contactMaterial"@));
    assert(is_ascii_text("description"@));
    assert(is_ascii_text("immersionProperties"@));
    assert(is_ascii_text("linearVelocity"@));
    assert(is_ascii_text("locked"@));
    assert(is_ascii_text("lookup_table"@));
    assert(is_ascii_text("model"@));
    assert(is_ascii_text("name"@));
    assert(is_ascii_text("physics"@));
    assert(is_ascii_text("radarCrossSection"@));
    assert(is_ascii_text("recognitionColors"@));
    assert(is_ascii_text("resolution"@));
    assert(is_ascii_text("rotation"@));
    assert(is_ascii_text("translation"@));
    assert(is_ascii_text("x_axis"@));
    assert(is_ascii_text("y_axis"@));
    assert(is_ascii_text("z_axis"@));
    let t = fields_accelerometer_spec();
    assert forall|i: int| 0 <= i < t.len() implies is_ascii_text(#[trigger] t[i].0) by { if i == 0 {} else if i == 1 {} else if i == 2 {} else if i == 3 {} else if i == 4 {} else if i == 5 {} else if i == 6 {} else if i == 7 {} else if i == 8 {} else if i == 9 {} else if i == 10 {} else if i == 11 {} else if i == 12 {} else if i == 13 {} else if i == 14 {} else if i == 15 {} else if i == 16 {} else if i == 17 {} else if i == 18 {} else {} }
}

proof fn lemma_ascii_altimeter()
    ensures
        ascii_names(fields_altimeter_spec()),
{
    reveal(ascii_names);
    reveal_strlit("accuracy");
    reveal_strlit("angularVelocity");
    reveal_strlit("boundingObject");
    reveal_strlit("children");
    reveal_strlit("contactMaterial");
    reveal_strlit("description");
    reveal_strlit("immersionProperties");
    reveal_strlit("linearVelocity");
    reveal_strlit("locked");
    reveal_strlit("model");
    reveal_strlit("name");
    reveal_strlit("physics");
    reveal_strlit("radarCrossSection");
    reveal_strlit("recognitionColors");
    reveal_strlit("resolution");
    reveal_strlit("rotation");
    reveal_strlit("translation");
    assert(is_ascii_text("accuracy"@));
    assert(is_ascii_text("angularVelocity"@));
    assert(is_ascii_text("boundingObject"@));
    assert(is_ascii_text("children"@));
    assert(is_ascii_text("contactMaterial"@));
    assert(is_ascii_text("description"@));
    assert(is_ascii_text("immersionProperties"@));
    assert(is_ascii_text("linearVelocity"@));
    assert(is_ascii_text("locked"@));
    assert(is_ascii_text("model"@));
    assert(is_ascii_text("name"@));
    assert(is_ascii_text("physics"@));
    assert(is_ascii_text("radarCrossSection"@));
    assert(is_ascii_text("recognitionColors"@));
    assert(is_ascii_text("resolution"@));
    assert(is_ascii_text("rotation"@));
    assert(is_ascii_text("translation"@));
    let t = fields_altimeter_spec();
    assert forall|i: int| 0 <= i < t.len() implies is_ascii_text(#[trigger] t[i].0) by { if i == 0 {} else if i == 1 {} else if i == 2 {} else if i == 3 {} else if i == 4 {} else if i == 5 {} else if i == 6 {} else if i == 7 {} else if i == 8 {} else if i == 9 {} else if i == 10 {} else if i == 11 {} else if i == 12 {} else if i == 13 {} else if i == 14 {} else if i == 15 {} else {} }
}

proof fn lemma_ascii_camera()
    ensures
        ascii_names(fields_camera_spec()),
{
    reveal(ascii_names);
    reveal_strlit("ambient_occlusion_radius");
    reveal_strlit("angularVelocity");
    reveal_strlit("anti_aliasing");
    reveal_strlit("bloom_threshold");
    reveal_strlit("boundingObject");
    reveal_strlit("children");
    reveal_strlit("contactMaterial");
    reveal_strlit("description");
    reveal_strlit("exposure");
    reveal_strlit("far");
    reveal_strlit("field_of_view");
    reveal_strlit("focus");
    reveal_strlit("height");
    reveal_strlit("immersionProperties");
    reveal_strlit("lens");
    reveal_strlit("lens_flare");
    reveal_strlit("linearVelocity");
    reveal_strlit("locked");
    reveal_strlit("model");
    reveal_strlit("motion_blur");
    reveal_strlit("name");
    reveal_strlit("near");
    reveal_strlit("noise");
    reveal_strlit("noise_mask_url");
    reveal_strlit("physics");
    reveal_strlit("projection");
    reveal_strlit("radarCrossSection");
    reveal_strlit("recognition");
    reveal_strlit("recognitionColors");
    reveal_strlit("rotation");
    reveal_strlit("translation");
    reveal_strlit("width");
    reveal_strlit("zoom");
    assert(is_ascii_text("ambient_occlusion_radius"@));
    assert(is_ascii_text("angularVelocity"@));
    assert(is_ascii_text("anti_aliasing"@));
    assert(is_ascii_text("bloom_threshold"@));
    assert(is_ascii_text("boundingObject"@));
    assert(is_ascii_text("children"@));
    assert(is_ascii_text("contactMaterial"@));
    assert(is_ascii_text("description"@));
    assert(is_ascii_text("exposure"@));
    assert(is_ascii_text("far"@));
    assert(is_ascii_text("field_of_view"@));
    assert(is_ascii_text("focus"@));
    assert(is_ascii_text("height"@));
    assert(is_ascii_text("immersionProperties"@));
    assert(is_ascii_text("lens"@));
    assert(is_ascii_text("lens_flare"@));
    assert(is_ascii_text("linearVelocity"@));
    assert(is_ascii_text("locked"@));
    assert(is_ascii_text("model"@));
    assert(is_ascii_text("motion_blur"@));
    assert(is_ascii_text("name"@));
    assert(is_ascii_text("near"@));
    assert(is_ascii_text("noise"@));
    assert(is_ascii_text("noise_mask_url"@));
    assert(is_ascii_text("physics"@));
    assert(is_ascii_text("projection"@));
    assert(is_ascii_text("radarCrossSection"@));
    assert(is_ascii_text("recognition"@));
    assert(is_ascii_text("recognitionColors"@));
    assert(is_ascii_text("rotation"@));
    assert(is_ascii_text("translation"@));
    assert(is_ascii_text("width"@));
    assert(is_ascii_text("zoom"@));
    let t = fields_camera_spec();
    assert forall|i: int| 0 <= i < t.len() implies is_ascii_text(#[trigger] t[i].0) by { if i == 0 {} else if i == 1 {} else if i == 2 {} else if i == 3 {} else if i == 4 {} else if i == 5 {} else if i == 6 {} else if i == 7 {} else if i == 8 {} else if i == 9 {} else if i == 10 {} else if i == 11 {} else if i == 12 {} else if i == 13 {} else if i == 14 {} else if i == 15 {} else if i == 16 {} else if i == 17 {} else if i == 18 {} else if i == 19 {} else if i == 20 {} else if i == 21 {} else if i == 22 {} else if i == 23 {} else if i == 24 {} else if i == 25 {} else if i == 26 {} else if i == 27 {} else if i == 28 {} else if i == 29 {} else if i == 30 {} else if i == 31 {} else {} }
}

proof fn lemma_ascii_compass()
    ensures
        ascii_names(fields_compass_spec()),
{
    reveal(ascii_names);
    reveal_strlit("angularVelocity");
    reveal_strlit("boundingObject");
    reveal_strlit("children");
    reveal_strlit("contactMaterial");
    reveal_strlit("description");
    reveal_strlit("immersionProperties");
    reveal_strlit("linearVelocity");
    reveal_strlit("locked");
    reveal_strlit("lookup_table");
    reveal_strlit("model");
    reveal_strlit("name");
    reveal_strlit("physics");
    reveal_strlit("radarCrossSection");
    reveal_strlit("recognitionColors");
    reveal_strlit("resolution");
    reveal_strlit("rotation");
    reveal_strlit("translation");
    reveal_strlit("x_axis");
    reveal_strlit("y_axis");
    reveal_strlit("z_axis");
    assert(is_ascii_text("angularVelocity"@));
    assert(is_ascii_text("boundingObject"@));
    assert(is_ascii_text("children"@));
    assert(is_ascii_text("contactMaterial"@));
    assert(is_ascii_text("description"@));
    assert(is_ascii_text("immersionProperties"@));
    assert(is_ascii_text("linearVelocity"@));
    assert(is_ascii_text("locked"@));
    assert(is_ascii_text("lookup_table"@));
    assert(is_ascii_text("model"@));
    assert(is_ascii_text("name"@));
    assert(is_ascii_text("physics"@));
    assert(is_ascii_text("radarCrossSection"@));
    assert(is_ascii_text("recognitionColors"@));
    assert(is_ascii_text("resolution"@));
    assert(is_ascii_text("rotation"@));
    assert(is_ascii_text("translation"@));
    assert(is_ascii_text("x_axis"@));
    assert(is_ascii_text("y_axis"@));
    assert(is_ascii_text("z_axis"@));
    let t = fields_compass_spec();
    assert forall|i: int| 0 <= i < t.len() implies is_ascii_text(#[trigger] t[i].0) by { if i == 0 {} else if i == 1 {} else if i == 2 {} else if i == 3 {} else if i == 4 {} else if i == 5 {} else if i == 6 {} else if i == 7 {} else if i == 8 {} else if i == 9 {} else if i == 10 {} else if i == 11 {} else if i == 12 {} else if i == 13 {} else if i == 14 {} else if i == 15 {} else if i == 16 {} else if i == 17 {} else if i == 18 {} else {} }
}

proof fn lemma_ascii_distance_sensor()
    ensures
        ascii_names(fields_distance_sensor_spec()),
{
    reveal(ascii_names);
    reveal_strlit("angularVelocity");
    reveal_strlit("aperture");
    reveal_strlit("boundingObject");
    reveal_strlit("children");
    reveal_strlit("contactMaterial");
    reveal_strlit("description");
    reveal_strlit("gaussian_width");
    reveal_strlit("immersionProperties");
    reveal_strlit("linearVelocity");
    reveal_strlit("locked");
    reveal_strlit("lookup_table");
    reveal_strlit("model");
    reveal_strlit("name");
    reveal_strlit("number_of_rays");
    reveal_strlit("physics");
    reveal_strlit("radarCrossSection");
    reveal_strlit("recognitionColors");
    reveal_strlit("red_color_sensitivity");
    reveal_strlit("resolution");
    reveal_strlit("rotation");
    reveal_strlit("translation");
    reveal_strlit("type");
    assert(is_ascii_text("angularVelocity"@));
    assert(is_ascii_text("aperture"@));
    assert(is_ascii_text("boundingObject"@));
    assert(is_ascii_text("children"@));
    assert(is_ascii_text("contactMaterial"@));
    assert(is_ascii_text("description"@));
    assert(is_ascii_text("gaussian_width"@));
    assert(is_ascii_text("immersionProperties"@));
    assert(is_ascii_text("linearVelocity"@));
    assert(is_ascii_text("locked"@));
    assert(is_ascii_text("lookup_table"@));
    assert(is_ascii_text("model"@));
    assert(is_ascii_text("name"@));
    assert(is_ascii_text("number_of_rays"@));
    assert(is_ascii_text("physics"@));
    assert(is_ascii_text("radarCrossSection"@));
    assert(is_ascii_text("recognitionColors"@));
    assert(is_ascii_text("red_color_sensitivity"@));
    assert(is_ascii_text("resolution"@));
    assert(is_ascii_text("rotation"@));
    assert(is_ascii_text("translation"@));
    assert(is_ascii_text("type"@));
    let t = fields_distance_sensor_spec();
    assert forall|i: int| 0 <= i < t.len() implies is_ascii_text(#[trigger] t[i].0) by { if i == 0 {} else if i == 1 {} else if i == 2 {} else if i == 3 {} else if i == 4 {} else if i == 5 {} else if i == 6 {} else if i == 7 {} else if i == 8 {} else if i == 9 {} else if i == 10 {} else if i == 11 {} else if i == 12 {} else if i == 13 {} else if i == 14 {} else if i == 15 {} else if i == 16 {} else if i == 17 {} else if i == 18 {} else if i == 19 {} else if i == 20 {} else {} }
}

proof fn lemma_ascii_gps()
    ensures
        ascii_names(fields_gps_spec()),
{
    reveal(ascii_names);
    reveal_strlit("accuracy");
    reveal_strlit("angularVelocity");
    reveal_strlit("boundingObject");
    reveal_strlit("children");
    reveal_strlit("contactMaterial");
    reveal_strlit("description");
    reveal_strlit("immersionProperties");
    reveal_strlit("linearVelocity");
    reveal_strlit("locked");
    reveal_strlit("model");
    reveal_strlit("name");
    reveal_strlit("noise_correlation");
    reveal_strlit("physics");
    reveal_strlit("radarCrossSection");
    reveal_strlit("recognitionColors");
    reveal_strlit("resolution");
    reveal_strlit("rotation");
    reveal_strlit("speed_noise");
    reveal_strlit("speed_resolution");
    reveal_strlit("translation");
    reveal_strlit("type");
    assert(is_ascii_text("accuracy"@));
    assert(is_ascii_text("angularVelocity"@));
    assert(is_ascii_text("boundingObject"@));
    assert(is_ascii_text("children"@));
    assert(is_ascii_text("contactMaterial"@));
    assert(is_ascii_text("description"@));
    assert(is_ascii_text("immersionProperties"@));
    assert(is_ascii_text("linearVelocity"@));
    assert(is_ascii_text("locked"@));
    assert(is_ascii_text("model"@));
    assert(is_ascii_text("name"@));
    assert(is_ascii_text("noise_correlation"@));
    assert(is_ascii_text("physics"@));
    assert(is_ascii_text("radarCrossSection"@));
    assert(is_ascii_text("recognitionColors"@));
    assert(is_ascii_text("resolution"@));
    assert(is_ascii_text("rotation"@));
    assert(is_ascii_text("speed_noise"@));
    assert(is_ascii_text("speed_resolution"@));
    assert(is_ascii_text("translation"@));
    assert(is_ascii_text("type"@));
    let t = fields_gps_spec();
    assert forall|i: int| 0 <= i < t.len() implies is_ascii_text(#[trigger] t[i].0) by { if i == 0 {} else if i == 1 {} else if i == 2 {} else if i == 3 {} else if i == 4 {} else if i == 5 {} else if i == 6 {} else if i == 7 {} else if i == 8 {} else if i == 9 {} else if i == 10 {} else if i == 11 {} else if i == 12 {} else if i == 13 {} else if i == 14 {} else if i == 15 {} else if i == 16 {} else if i == 17 {} else if i == 18 {} else if i == 19 {} else {} }
}

proof fn lemma_ascii_gyro()
    ensures
        ascii_names(fields_gyro_spec()),
{
    reveal(ascii_names);
    reveal_strlit("angularVelocity");
    reveal_strlit("boundingObject");
    reveal_strlit("children");
    reveal_strlit("contactMaterial");
    reveal_strlit("description");
    reveal_strlit("immersionProperties");
    reveal_strlit("linearVelocity");
    reveal_strlit("locked");
    reveal_strlit("lookup_table");
    reveal_strlit("model");
    reveal_strlit("name");
    reveal_strlit("physics");
    reveal_strlit("radarCrossSection");
    reveal_strlit("recognitionColors");
    reveal_strlit("resolution");
    reveal_strlit("rotation");
    reveal_strlit("translation");
    reveal_strlit("x_axis");
    reveal_strlit("y_axis");
    reveal_strlit("z_axis");
    assert(is_ascii_text("angularVelocity"@));
    assert(is_ascii_text("boundingObject"@));
    assert(is_ascii_text("children"@));
    assert(is_ascii_text("contactMaterial"@));
    assert(is_ascii_text("description"@));
    assert(is_ascii_text("immersionProperties"@));
    assert(is_ascii_text("linearVelocity"@));
    assert(is_ascii_text("locked"@));
    assert(is_ascii_text("lookup_table"@));
    assert(is_ascii_text("model"@));
    assert(is_ascii_text("name"@));
    assert(is_ascii_text("physics"@));
    assert(is_ascii_text("radarCrossSection"@));
    assert(is_ascii_text("recognitionColors"@));
    assert(is_ascii_text("resolution"@));
    assert(is_ascii_text("rotation"@));
    assert(is_ascii_text("translation"@));
    assert(is_ascii_text("x_axis"@));
    assert(is_ascii_text("y_axis"@));
    assert(is_ascii_text("z_axis"@));
    let t = fields_gyro_spec();
    assert forall|i: int| 0 <= i < t.len() implies is_ascii_text(#[trigger] t[i].0) by { if i == 0 {} else if i == 1 {} else if i == 2 {} else if i == 3 {} else if i == 4 {} else if i == 5 {} else if i == 6 {} else if i == 7 {} else if i == 8 {} else if i == 9 {} else if i == 10 {} else if i == 11 {} else if i == 12 {} else if i == 13 {} else if i == 14 {} else if i == 15 {} else if i == 16 {} else if i == 17 {} else if i == 18 {} else {} }
}

proof fn lemma_ascii_inertial_unit()
    ensures
        ascii_names(fields_inertial_unit_spec()),
{
    reveal(ascii_names);
    reveal_strlit("angularVelocity");
    reveal_strlit("boundingObject");
    reveal_strlit("children");
    reveal_strlit("contactMaterial");
    reveal_strlit("description");
    reveal_strlit("immersionProperties");
    reveal_strlit("linearVelocity");
    reveal_strlit("locked");
    reveal_strlit("model");
    reveal_strlit("name");
    reveal_strlit("noise");
    reveal_strlit("physics");
    reveal_strlit("radarCrossSection");
    reveal_strlit("recognitionColors");
    reveal_strlit("resolution");
    reveal_strlit("rotation");
    reveal_strlit("translation");
    reveal_strlit("x_axis");
    reveal_strlit("y_axis");
    reveal_strlit("z_axis");
    assert(is_ascii_text("angularVelocity"@));
    assert(is_ascii_text("boundingObject"@));
    assert(is_ascii_text("children"@));
    assert(is_ascii_text("contactMaterial"@));
    assert(is_ascii_text("description"@));
    assert(is_ascii_text("immersionProperties"@));
    assert(is_ascii_text("linearVelocity"@));
    assert(is_ascii_text("locked"@));
    assert(is_ascii_text("model"@));
    assert(is_ascii_text("name"@));
    assert(is_ascii_text("noise"@));
    assert(is_ascii_text("physics"@));
    assert(is_ascii_text("radarCrossSection"@));
    assert(is_ascii_text("recognitionColors"@));
    assert(is_ascii_text("resolution"@));
    assert(is_ascii_text("rotation"@));
    assert(is_ascii_text("translation"@));
    assert(is_ascii_text("x_axis"@));
    assert(is_ascii_text("y_axis"@));
    assert(is_ascii_text("z_axis"@));
    let t = fields_inertial_unit_spec();
    assert forall|i: int| 0 <= i < t.len() implies is_ascii_text(#[trigger] t[i].0) by { if i == 0 {} else if i == 1 {} else if i == 2 {} else if i == 3 {} else if i == 4 {} else if i == 5 {} else if i == 6 {} else if i == 7 {} else if i == 8 {} else if i == 9 {} else if i == 10 {} else if i == 11 {} else if i == 12 {} else if i == 13 {} else if i == 14 {} else if i == 15 {} else if i == 16 {} else if i == 17 {} else if i == 18 {} else {} }
}

proof fn lemma_ascii_lidar()
    ensures
        ascii_names(fields_lidar_spec()),
{
    reveal(ascii_names);
    reveal_strlit("angularVelocity");
    reveal_strlit("boundingObject");
    reveal_strlit("children");
    reveal_strlit("contactMaterial");
    reveal_strlit("default_frequency");
    reveal_strlit("description");
    reveal_strlit("field_of_view");
    reveal_strlit("horizontal_resolution");
    reveal_strlit("immersionProperties");
    reveal_strlit("linearVelocity");
    reveal_strlit("locked");
    reveal_strlit("max_frequency");
    reveal_strlit("max_range");
    reveal_strlit("min_frequency");
    reveal_strlit("min_range");
    reveal_strlit("model");
    reveal_strlit("name");
    reveal_strlit("near");
    reveal_strlit("noise");
    reveal_strlit("number_of_layers");
    reveal_strlit("physics");
    reveal_strlit("projection");
    reveal_strlit("radarCrossSection");
    reveal_strlit("recognitionColors");
    reveal_strlit("resolution");
    reveal_strlit("rotating_head");
    reveal_strlit("rotation");
    reveal_strlit("tilt_angle");
    reveal_strlit("translation");
    reveal_strlit("type");
    reveal_strlit("vertical_field_of_view");
    assert(is_ascii_text("angularVelocity"@));
    assert(is_ascii_text("boundingObject"@));
    assert(is_ascii_text("children"@));
    assert(is_ascii_text("contactMaterial"@));
    assert(is_ascii_text("default_frequency"@));
    assert(is_ascii_text("description"@));
    assert(is_ascii_text("field_of_view"@));
    assert(is_ascii_text("horizontal_resolution"@));
    assert(is_ascii_text("immersionProperties"@));
    assert(is_ascii_text("linearVelocity"@));
    assert(is_ascii_text("locked"@));
    assert(is_ascii_text("max_frequency"@));
    assert(is_ascii_text("max_range"@));
    assert(is_ascii_text("min_frequency"@));
    assert(is_ascii_text("min_range"@));
    assert(is_ascii_text("model"@));
    assert(is_ascii_text("name"@));
    assert(is_ascii_text("near"@));
    assert(is_ascii_text("noise"@));
    assert(is_ascii_text("number_of_layers"@));
    assert(is_ascii_text("physics"@));
    assert(is_ascii_text("projection"@));
    assert(is_ascii_text("radarCrossSection"@));
    assert(is_ascii_text("recognitionColors"@));
    assert(is_ascii_text("resolution"@));
    assert(is_ascii_text("rotating_head"@));
    assert(is_ascii_text("rotation"@));
    assert(is_ascii_text("tilt_angle"@));
    assert(is_ascii_text("translation"@));
    assert(is_ascii_text("type"@));
    assert(is_ascii_text("vertical_field_of_view"@));
    let t = fields_lidar_spec();
    assert forall|i: int| 0 <= i < t.len() implies is_ascii_text(#[trigger] t[i].0) by { if i == 0 {} else if i == 1 {} else if i == 2 {} else if i == 3 {} else if i == 4 {} else if i == 5 {} else if i == 6 {} else if i == 7 {} else if i == 8 {} else if i == 9 {} else if i == 10 {} else if i == 11 {} else if i == 12 {} else if i == 13 {} else if i == 14 {} else if i == 15 {} else if i == 16 {} else if i == 17 {} else if i == 18 {} else if i == 19 {} else if i == 20 {} else if i == 21 {} else if i == 22 {} else if i == 23 {} else if i == 24 {} else if i == 25 {} else if i == 26 {} else if i == 27 {} else if i == 28 {} else if i == 29 {} else {} }
}

proof fn lemma_ascii_light_sensor()
    ensures
        ascii_names(fields_light_sensor_spec()),
{
    reveal(ascii_names);
    reveal_strlit("angularVelocity");
    reveal_strlit("boundingObject");
    reveal_strlit("children");
    reveal_strlit("color_filter");
    reveal_strlit("contactMaterial");
    reveal_strlit("description");
    reveal_strlit("immersionProperties");
    reveal_strlit("linearVelocity");
    reveal_strlit("locked");
    reveal_strlit("lookup_table");
    reveal_strlit("model");
    reveal_strlit("name");
    reveal_strlit("occlusion");
    reveal_strlit("physics");
    reveal_strlit("radarCrossSection");
    reveal_strlit("recognitionColors");
    reveal_strlit("resolution");
    reveal_strlit("rotation");
    reveal_strlit("translation");
    assert(is_ascii_text("angularVelocity"@));
    assert(is_ascii_text("boundingObject"@));
    assert(is_ascii_text("children"@));
    assert(is_ascii_text("color_filter"@));
    assert(is_ascii_text("contactMaterial"@));
    assert(is_ascii_text("description"@));
    assert(is_ascii_text("immersionProperties"@));
    assert(is_ascii_text("linearVelocity"@));
    assert(is_ascii_text("locked"@));
    assert(is_ascii_text("lookup_table"@));
    assert(is_ascii_text("model"@));
    assert(is_ascii_text("name"@));
    assert(is_ascii_text("occlusion"@));
    assert(is_ascii_text("physics"@));
    assert(is_ascii_text("radarCrossSection"@));
    assert(is_ascii_text("recognitionColors"@));
    assert(is_ascii_text("resolution"@));
    assert(is_ascii_text("rotation"@));
    assert(is_ascii_text("translation"@));
    let t = fields_light_sensor_spec();
    assert forall|i: int| 0 <= i < t.len() implies is_ascii_text(#[trigger] t[i].0) by { if i == 0 {} else if i == 1 {} else if i == 2 {} else if i == 3 {} else if i == 4 {} else if i == 5 {} else if i == 6 {} else if i == 7 {} else if i == 8 {} else if i == 9 {} else if i == 10 {} else if i == 11 {} else if i == 12 {} else if i == 13 {} else if i == 14 {} else if i == 15 {} else if i == 16 {} else if i == 17 {} else {} }
}

proof fn lemma_ascii_position_sensor()
    ensures
        ascii_names(fields_position_sensor_spec()),
{
    reveal(ascii_names);
    reveal_strlit("description");
    reveal_strlit("model");
    reveal_strlit("name");
    reveal_strlit("noise");
    reveal_strlit("resolution");
    assert(is_ascii_text("description"@));
    assert(is_ascii_text("model"@));
    assert(is_ascii_text("name"@));
    assert(is_ascii_text("noise"@));
    assert(is_ascii_text("resolution"@));
    let t = fields_position_sensor_spec();
    assert forall|i: int| 0 <= i < t.len() implies is_ascii_text(#[trigger] t[i].0) by { if i == 0 {} else if i == 1 {} else if i == 2 {} else if i == 3 {} else {} }
}

proof fn lemma_ascii_radar()
    ensures
        ascii_names(fields_radar_spec()),
{
    reveal(ascii_names);
    reveal_strlit("angularVelocity");
    reveal_strlit("angular_noise");
    reveal_strlit("antenna_gain");
    reveal_strlit("boundingObject");
    reveal_strlit("cell_distance");
    reveal_strlit("cell_speed");
    reveal_strlit("children");
    reveal_strlit("contactMaterial");
    reveal_strlit("description");
    reveal_strlit("frequency");
    reveal_strlit("horizontal_field_of_view");
    reveal_strlit("immersionProperties");
    reveal_strlit("linearVelocity");
    reveal_strlit("locked");
    reveal_strlit("max_radial_speed");
    reveal_strlit("max_range");
    reveal_strlit("min_absolute_radial_speed");
    reveal_strlit("min_detectable_signal");
    reveal_strlit("min_radial_speed");
    reveal_strlit("min_range");
    reveal_strlit("model");
    reveal_strlit("name");
    reveal_strlit("occlusion");
    reveal_strlit("physics");
    reveal_strlit("radarCrossSection");
    reveal_strlit("range_noise");
    reveal_strlit("recognitionColors");
    reveal_strlit("rotation");
    reveal_strlit("speed_noise");
    reveal_strlit("translation");
    reveal_strlit("transmitted_power");
    reveal_strlit("vertical_field_of_view");
    assert(is_ascii_text("angularVelocity"@));
    assert(is_ascii_text("angular_noise"@));
    assert(is_ascii_text("antenna_gain"@));
    assert(is_ascii_text("boundingObject"@));
    assert(is_ascii_text("cell_distance"@));
    assert(is_ascii_text("cell_speed"@));
    assert(is_ascii_text("children"@));
    assert(is_ascii_text("contactMaterial"@));
    assert(is_ascii_text("description"@));
    assert(is_ascii_text("frequency"@));
    assert(is_ascii_text("horizontal_field_of_view"@));
    assert(is_ascii_text("immersionProperties"@));
    assert(is_ascii_text("linearVelocity"@));
    assert(is_ascii_text("locked"@));
    assert(is_ascii_text("max_radial_speed"@));
    assert(is_ascii_text("max_range"@));
    assert(is_ascii_text("min_absolute_radial_speed"@));
    assert(is_ascii_text("min_detectable_signal"@));
    assert(is_ascii_text("min_radial_speed"@));
    assert(is_ascii_text("min_range"@));
    assert(is_ascii_text("model"@));
    assert(is_ascii_text("name"@));
    assert(is_ascii_text("occlusion"@));
    assert(is_ascii_text("physics"@));
    assert(is_ascii_text("radarCrossSection"@));
    assert(is_ascii_text("range_noise"@));
    assert(is_ascii_text("recognitionColors"@));
    assert(is_ascii_text("rotation"@));
    assert(is_ascii_text("speed_noise"@));
    assert(is_ascii_text("translation"@));
    assert(is_ascii_text("transmitted_power"@));
    assert(is_ascii_text("vertical_field_of_view"@));
    let t = fields_radar_spec();
    assert forall|i: int| 0 <= i < t.len() implies is_ascii_text(#[trigger] t[i].0) by { if i == 0 {} else if i == 1 {} else if i == 2 {} else if i == 3 {} else if i == 4 {} else if i == 5 {} else if i == 6 {} else if i == 7 {} else if i == 8 {} else if i == 9 {} else if i == 10 {} else if i == 11 {} else if i == 12 {} else if i == 13 {} else if i == 14 {} else if i == 15 {} else if i == 16 {} else if i == 17 {} else if i == 18 {} else if i == 19 {} else if i == 20 {} else if i == 21 {} else if i == 22 {} else if i == 23 {} else if i == 24 {} else if i == 25 {} else if i == 26 {} else if i == 27 {} else if i == 28 {} else if i == 29 {} else if i == 30 {} else {} }
}

proof fn lemma_ascii_range_finder()
    ensures
        ascii_names(fields_range_finder_spec()),
{
    reveal(ascii_names);
    reveal_strlit("angularVelocity");
    reveal_strlit("boundingObject");
    reveal_strlit("children");
    reveal_strlit("contactMaterial");
    reveal_strlit("description");
    reveal_strlit("field_of_view");
    reveal_strlit("height");
    reveal_strlit("immersionProperties");
    reveal_strlit("lens");
    reveal_strlit("linearVelocity");
    reveal_strlit("locked");
    reveal_strlit("max_range");
    reveal_strlit("min_range");
    reveal_strlit("model");
    reveal_strlit("motion_blur");
    reveal_strlit("name");
    reveal_strlit("near");
    reveal_strlit("noise");
    reveal_strlit("physics");
    reveal_strlit("projection");
    reveal_strlit("radarCrossSection");
    reveal_strlit("recognitionColors");
    reveal_strlit("resolution");
    reveal_strlit("rotation");
    reveal_strlit("translation");
    reveal_strlit("width");
    assert(is_ascii_text("angularVelocity"@));
    assert(is_ascii_text("boundingObject"@));
    assert(is_ascii_text("children"@));
    assert(is_ascii_text("contactMaterial"@));
    assert(is_ascii_text("description"@));
    assert(is_ascii_text("field_of_view"@));
    assert(is_ascii_text("height"@));
    assert(is_ascii_text("immersionProperties"@));
    assert(is_ascii_text("lens"@));
    assert(is_ascii_text("linearVelocity"@));
    assert(is_ascii_text("locked"@));
    assert(is_ascii_text("max_range"@));
    assert(is_ascii_text("min_range"@));
    assert(is_ascii_text("model"@));
    assert(is_ascii_text("motion_blur"@));
    assert(is_ascii_text("name"@));
    assert(is_ascii_text("near"@));
    assert(is_ascii_text("noise"@));
    assert(is_ascii_text("physics"@));
    assert(is_ascii_text("projection"@));
    assert(is_ascii_text("radarCrossSection"@));
    assert(is_ascii_text("recognitionColors"@));
    assert(is_ascii_text("resolution"@));
    assert(is_ascii_text("rotation"@));
    assert(is_ascii_text("translation"@));
    assert(is_ascii_text("width"@));
    let t = fields_range_finder_spec();
    assert forall|i: int| 0 <= i < t.len() implies is_ascii_text(#[trigger] t[i].0) by { if i == 0 {} else if i == 1 {} else if i == 2 {} else if i == 3 {} else if i == 4 {} else if i == 5 {} else if i == 6 {} else if i == 7 {} else if i == 8 {} else if i == 9 {} else if i == 10 {} else if i == 11 {} else if i == 12 {} else if i == 13 {} else if i == 14 {} else if i == 15 {} else if i == 16 {} else if i == 17 {} else if i == 18 {} else if i == 19 {} else if i == 20 {} else if i == 21 {} else if i == 22 {} else if i == 23 {} else if i == 24 {} else {} }
}

proof fn lemma_ascii_touch_sensor()
    ensures
        ascii_names(fields_touch_sensor_spec()),
{
    reveal(ascii_names);
    reveal_strlit("angularVelocity");
    reveal_strlit("boundingObject");
    reveal_strlit("children");
    reveal_strlit("contactMaterial");
    reveal_strlit("description");
    reveal_strlit("immersionProperties");
    reveal_strlit("linearVelocity");
    reveal_strlit("locked");
    reveal_strlit("lookup_table");
    reveal_strlit("model");
    reveal_strlit("name");
    reveal_strlit("physics");
    reveal_strlit("radarCrossSection");
    reveal_strlit("recognitionColors");
    reveal_strlit("resolution");
    reveal_strlit("rotation");
    reveal_strlit("translation");
    reveal_strlit("type");
    assert(is_ascii_text("angularVelocity"@));
    assert(is_ascii_text("boundingObject"@));
    assert(is_ascii_text("children"@));
    assert(is_ascii_text("contactMaterial"@));
    assert(is_ascii_text("description"@));
    assert(is_ascii_text("immersionProperties"@));
    assert(is_ascii_text("linearVelocity"@));
    assert(is_ascii_text("locked"@));
    assert(is_ascii_text("lookup_table"@));
    assert(is_ascii_text("model"@));
    assert(is_ascii_text("name"@));
    assert(is_ascii_text("physics"@));
    assert(is_ascii_text("radarCrossSection"@));
    assert(is_ascii_text("recognitionColors"@));
    assert(is_ascii_text("resolution"@));
    assert(is_ascii_text("rotation"@));
    assert(is_ascii_text("translation"@));
    assert(is_ascii_text("type"@));
    let t = fields_touch_sensor_spec();
    assert forall|i: int| 0 <= i < t.len() implies is_ascii_text(#[trigger] t[i].0) by { if i == 0 {} else if i == 1 {} else if i == 2 {} else if i == 3 {} else if i == 4 {} else if i == 5 {} else if i == 6 {} else if i == 7 {} else if i == 8 {} else if i == 9 {} else if i == 10 {} else if i == 11 {} else if i == 12 {} else if i == 13 {} else if i == 14 {} else if i == 15 {} else if i == 16 {} else {} }
}

proof fn lemma_ascii_rotational_motor()
    ensures
        ascii_names(fields_rotational_motor_spec()),
{
    reveal(ascii_names);
    reveal_strlit("acceleration");
    reveal_strlit("consumptionFactor");
    reveal_strlit("controlPID");
    reveal_strlit("description");
    reveal_strlit("maxPosition");
    reveal_strlit("maxVelocity");
    reveal_strlit("max_torque");
    reveal_strlit("minPosition");
    reveal_strlit("model");
    reveal_strlit("multiplier");
    reveal_strlit("muscles");
    reveal_strlit("name");
    reveal_strlit("sound");
    assert(is_ascii_text("acceleration"@));
    assert(is_ascii_text("consumptionFactor"@));
    assert(is_ascii_text("controlPID"@));
    assert(is_ascii_text("description"@));
    assert(is_ascii_text("maxPosition"@));
    assert(is_ascii_text("maxVelocity"@));
    assert(is_ascii_text("max_torque"@));
    assert(is_ascii_text("minPosition"@));
    assert(is_ascii_text("model"@));
    assert(is_ascii_text("multiplier"@));
    assert(is_ascii_text("muscles"@));
    assert(is_ascii_text("name"@));
    assert(is_ascii_text("sound"@));
    let t = fields_rotational_motor_spec();
    assert forall|i: int| 0 <= i < t.len() implies is_ascii_text(#[trigger] t[i].0) by { if i == 0 {} else if i == 1 {} else if i == 2 {} else if i == 3 {} else if i == 4 {} else if i == 5 {} else if i == 6 {} else if i == 7 {} else if i == 8 {} else if i == 9 {} else if i == 10 {} else if i == 11 {} else {} }
}

proof fn lemma_ascii_linear_motor()
    ensures
        ascii_names(fields_linear_motor_spec()),
{
    reveal(ascii_names);
    reveal_strlit("acceleration");
    reveal_strlit("consumptionFactor");
    reveal_strlit("controlPID");
    reveal_strlit("description");
    reveal_strlit("maxPosition");
    reveal_strlit("maxVelocity");
    reveal_strlit("max_force");
    reveal_strlit("minPosition");
    reveal_strlit("model");
    reveal_strlit("multiplier");
    reveal_strlit("muscles");
    reveal_strlit("name");
    reveal_strlit("sound");
    assert(is_ascii_text("acceleration"@));
    assert(is_ascii_text("consumptionFactor"@));
    assert(is_ascii_text("controlPID"@));
    assert(is_ascii_text("description"@));
    assert(is_ascii_text("maxPosition"@));
    assert(is_ascii_text("maxVelocity"@));
    assert(is_ascii_text("max_force"@));
    assert(is_ascii_text("minPosition"@));
    assert(is_ascii_text("model"@));
    assert(is_ascii_text("multiplier"@));
    assert(is_ascii_text("muscles"@));
    assert(is_ascii_text("name"@));
    assert(is_ascii_text("sound"@));
    let t = fields_linear_motor_spec();
    assert forall|i: int| 0 <= i < t.len() implies is_ascii_text(#[trigger] t[i].0) by { if i == 0 {} else if i == 1 {} else if i == 2 {} else if i == 3 {} else if i == 4 {} else if i == 5 {} else if i == 6 {} else if i == 7 {} else if i == 8 {} else if i == 9 {} else if i == 10 {} else if i == 11 {} else {} }
}

proof fn lemma_ascii_brake()
    ensures
        ascii_names(fields_brake_spec()),
{
    reveal(ascii_names);
    reveal_strlit("description");
    reveal_strlit("model");
    reveal_strlit("name");
    assert(is_ascii_text("description"@));
    assert(is_ascii_text("model"@));
    assert(is_ascii_text("name"@));
    let t = fields_brake_spec();
    assert forall|i: int| 0 <= i < t.len() implies is_ascii_text(#[trigger] t[i].0) by { if i == 0 {} else if i == 1 {} else {} }
}

proof fn lemma_ascii_propeller()
    ensures
        ascii_names(fields_propeller_spec()),
{
    reveal(ascii_names);
    reveal_strlit("angularVelocity");
    reveal_strlit("boundingObject");
    reveal_strlit("center_of_thrust");
    reveal_strlit("children");
    reveal_strlit("contactMaterial");
    reveal_strlit("description");
    reveal_strlit("device");
    reveal_strlit("fast_helix");
    reveal_strlit("fast_helix_threshold");
    reveal_strlit("immersionProperties");
    reveal_strlit("linearVelocity");
    reveal_strlit("locked");
    reveal_strlit("model");
    reveal_strlit("name");
    reveal_strlit("physics");
    reveal_strlit("radarCrossSection");
    reveal_strlit("recognitionColors");
    reveal_strlit("rotation");
    reveal_strlit("shaft_axis");
    reveal_strlit("slow_helix");
    reveal_strlit("thrust_constants");
    reveal_strlit("torque_constants");
    reveal_strlit("translation");
    assert(is_ascii_text("angularVelocity"@));
    assert(is_ascii_text("boundingObject"@));
    assert(is_ascii_text("center_of_thrust"@));
    assert(is_ascii_text("children"@));
    assert(is_ascii_text("contactMaterial"@));
    assert(is_ascii_text("description"@));
    assert(is_ascii_text("device"@));
    assert(is_ascii_text("fast_helix"@));
    assert(is_ascii_text("fast_helix_threshold"@));
    assert(is_ascii_text("immersionProperties"@));
    assert(is_ascii_text("linearVelocity"@));
    assert(is_ascii_text("locked"@));
    assert(is_ascii_text("model"@));
    assert(is_ascii_text("name"@));
    assert(is_ascii_text("physics"@));
    assert(is_ascii_text("radarCrossSection"@));
    assert(is_ascii_text("recognitionColors"@));
    assert(is_ascii_text("rotation"@));
    assert(is_ascii_text("shaft_axis"@));
    assert(is_ascii_text("slow_helix"@));
    assert(is_ascii_text("thrust_constants"@));
    assert(is_ascii_text("torque_constants"@));
    assert(is_ascii_text("translation"@));
    let t = fields_propeller_spec();
    assert forall|i: int| 0 <= i < t.len() implies is_ascii_text(#[trigger] t[i].0) by { if i == 0 {} else if i == 1 {} else if i == 2 {} else if i == 3 {} else if i == 4 {} else if i == 5 {} else if i == 6 {} else if i == 7 {} else if i == 8 {} else if i == 9 {} else if i == 10 {} else if i == 11 {} else if i == 12 {} else if i == 13 {} else if i == 14 {} else if i == 15 {} else if i == 16 {} else if i == 17 {} else if i == 18 {} else if i == 19 {} else if i == 20 {} else if i == 21 {} else {} }
}

proof fn lemma_ascii_muscle()
    ensures
        ascii_names(fields_muscle_spec()),
{
    reveal(ascii_names);
    reveal_strlit("cast_shadows");
    reveal_strlit("color");
    reveal_strlit("end_offset");
    reveal_strlit("start_offset");
    reveal_strlit("visible");
    reveal_strlit("volume");
    assert(is_ascii_text("cast_shadows"@));
    assert(is_ascii_text("color"@));
    assert(is_ascii_text("end_offset"@));
    assert(is_ascii_text("start_offset"@));
    assert(is_ascii_text("visible"@));
    assert(is_ascii_text("volume"@));
    let t = fields_muscle_spec();
    assert forall|i: int| 0 <= i < t.len() implies is_ascii_text(#[trigger] t[i].0) by { if i == 0 {} else if i == 1 {} else if i == 2 {} else if i == 3 {} else if i == 4 {} else {} }
}

proof fn lemma_ascii_hinge_joint()
    ensures
        ascii_names(fields_hinge_joint_spec()),
{
    reveal(ascii_names);
    reveal_strlit("device");
    reveal_strlit("end_point");
    reveal_strlit("joint_parameters");
    reveal_strlit("position");
    assert(is_ascii_text("device"@));
    assert(is_ascii_text("end_point"@));
    assert(is_ascii_text("joint_parameters"@));
    assert(is_ascii_text("position"@));
    let t = fields_hinge_joint_spec();
    assert forall|i: int| 0 <= i < t.len() implies is_ascii_text(#[trigger] t[i].0) by { if i == 0 {} else if i == 1 {} else if i == 2 {} else {} }
}

proof fn lemma_ascii_hinge2_joint()
    ensures
        ascii_names(fields_hinge2_joint_spec()),
{
    reveal(ascii_names);
    reveal_strlit("device");
    reveal_strlit("device2");
    reveal_strlit("end_point");
    reveal_strlit("joint_parameters");
    reveal_strlit("joint_parameters2");
    reveal_strlit("position");
    reveal_strlit("position2");
    assert(is_ascii_text("device"@));
    assert(is_ascii_text("device2"@));
    assert(is_ascii_text("end_point"@));
    assert(is_ascii_text("joint_parameters"@));
    assert(is_ascii_text("joint_parameters2"@));
    assert(is_ascii_text("position"@));
    assert(is_ascii_text("position2"@));
    let t = fields_hinge2_joint_spec();
    assert forall|i: int| 0 <= i < t.len() implies is_ascii_text(#[trigger] t[i].0) by { if i == 0 {} else if i == 1 {} else if i == 2 {} else if i == 3 {} else if i == 4 {} else if i == 5 {} else {} }
}

proof fn lemma_ascii_ball_joint()
    ensures
        ascii_names(fields_ball_joint_spec()),
{
    reveal(ascii_names);
    reveal_strlit("device");
    reveal_strlit("device2");
    reveal_strlit("device3");
    reveal_strlit("end_point");
    reveal_strlit("joint_parameters");
    reveal_strlit("joint_parameters2");
    reveal_strlit("joint_parameters3");
    reveal_strlit("position");
    reveal_strlit("position2");
    reveal_strlit("position3");
    assert(is_ascii_text("device"@));
    assert(is_ascii_text("device2"@));
    assert(is_ascii_text("device3"@));
    assert(is_ascii_text("end_point"@));
    assert(is_ascii_text("joint_parameters"@));
    assert(is_ascii_text("joint_parameters2"@));
    assert(is_ascii_text("joint_parameters3"@));
    assert(is_ascii_text("position"@));
    assert(is_ascii_text("position2"@));
    assert(is_ascii_text("position3"@));
    let t = fields_ball_joint_spec();
    assert forall|i: int| 0 <= i < t.len() implies is_ascii_text(#[trigger] t[i].0) by { if i == 0 {} else if i == 1 {} else if i == 2 {} else if i == 3 {} else if i == 4 {} else if i == 5 {} else if i == 6 {} else if i == 7 {} else if i == 8 {} else {} }
}

proof fn lemma_ascii_slider_joint()
    ensures
        ascii_names(fields_slider_joint_spec()),
{
    reveal(ascii_names);
    reveal_strlit("device");
    reveal_strlit("end_point");
    reveal_strlit("joint_parameters");
    reveal_strlit("position");
    assert(is_ascii_text("device"@));
    assert(is_ascii_text("end_point"@));
    assert(is_ascii_text("joint_parameters"@));
    assert(is_ascii_text("position"@));
    let t = fields_slider_joint_spec();
    assert forall|i: int| 0 <= i < t.len() implies is_ascii_text(#[trigger] t[i].0) by { if i == 0 {} else if i == 1 {} else if i == 2 {} else {} }
}

proof fn lemma_ascii_joint_parameters()
    ensures
        ascii_names(fields_joint_parameters_spec()),
{
    reveal(ascii_names);
    reveal_strlit("axis");
    reveal_strlit("damping_constant");
    reveal_strlit("max_stop");
    reveal_strlit("min_stop");
    reveal_strlit("position");
    reveal_strlit("spring_constant");
    reveal_strlit("static_friction");
    assert(is_ascii_text("axis"@));
    assert(is_ascii_text("damping_constant"@));
    assert(is_ascii_text("max_stop"@));
    assert(is_ascii_text("min_stop"@));
    assert(is_ascii_text("position"@));
    assert(is_ascii_text("spring_constant"@));
    assert(is_ascii_text("static_friction"@));
    let t = fields_joint_parameters_spec();
    assert forall|i: int| 0 <= i < t.len() implies is_ascii_text(#[trigger] t[i].0) by { if i == 0 {} else if i == 1 {} else if i == 2 {} else if i == 3 {} else if i == 4 {} else if i == 5 {} else {} }
}

proof fn lemma_ascii_hinge_joint_parameters()
    ensures
        ascii_names(fields_hinge_joint_parameters_spec()),
{
    reveal(ascii_names);
    reveal_strlit("anchor");
    reveal_strlit("axis");
    reveal_strlit("damping_constant");
    reveal_strlit("max_stop");
    reveal_strlit("min_stop");
    reveal_strlit("position");
    reveal_strlit("spring_constant");
    reveal_strlit("static_friction");
    reveal_strlit("stop_cfm");
    reveal_strlit("stop_erp");
    reveal_strlit("suspension_axis");
    reveal_strlit("suspension_damping_constant");
    reveal_strlit("suspension_spring_constant");
    assert(is_ascii_text("anchor"@));
    assert(is_ascii_text("axis"@));
    assert(is_ascii_text("damping_constant"@));
    assert(is_ascii_text("max_stop"@));
    assert(is_ascii_text("min_stop"@));
    assert(is_ascii_text("position"@));
    assert(is_ascii_text("spring_constant"@));
    assert(is_ascii_text("static_friction"@));
    assert(is_ascii_text("stop_cfm"@));
    assert(is_ascii_text("stop_erp"@));
    assert(is_ascii_text("suspension_axis"@));
    assert(is_ascii_text("suspension_damping_constant"@));
    assert(is_ascii_text("suspension_spring_constant"@));
    let t = fields_hinge_joint_parameters_spec();
    assert forall|i: int| 0 <= i < t.len() implies is_ascii_text(#[trigger] t[i].0) by { if i == 0 {} else if i == 1 {} else if i == 2 {} else if i == 3 {} else if i == 4 {} else if i == 5 {} else if i == 6 {} else if i == 7 {} else if i == 8 {} else if i == 9 {} else if i == 10 {} else if i == 11 {} else {} }
}

proof fn lemma_ascii_ball_joint_parameters()
    ensures
        ascii_names(fields_ball_joint_parameters_spec()),
{
    reveal(ascii_names);
    reveal_strlit("anchor");
    reveal_strlit("axis");
    reveal_strlit("damping_constant");
    reveal_strlit("max_stop");
    reveal_strlit("min_stop");
    reveal_strlit("position");
    reveal_strlit("spring_constant");
    reveal_strlit("static_friction");
    assert(is_ascii_text("anchor"@));
    assert(is_ascii_text("axis"@));
    assert(is_ascii_text("damping_constant"@));
    assert(is_ascii_text("max_stop"@));
    assert(is_ascii_text("min_stop"@));
    assert(is_ascii_text("position"@));
    assert(is_ascii_text("spring_constant"@));
    assert(is_ascii_text("static_friction"@));
    let t = fields_ball_joint_parameters_spec();
    assert forall|i: int| 0 <= i < t.len() implies is_ascii_text(#[trigger] t[i].0) by { if i == 0 {} else if i == 1 {} else if i == 2 {} else if i == 3 {} else if i == 4 {} else if i == 5 {} else if i == 6 {} else {} }
}

proof fn lemma_ascii_led()
    ensures
        ascii_names(fields_led_spec()),
{
    reveal(ascii_names);
    reveal_strlit("angularVelocity");
    reveal_strlit("boundingObject");
    reveal_strlit("children");
    reveal_strlit("color");
    reveal_strlit("contactMaterial");
    reveal_strlit("description");
    reveal_strlit("gradual");
    reveal_strlit("immersionProperties");
    reveal_strlit("linearVelocity");
    reveal_strlit("locked");
    reveal_strlit("model");
    reveal_strlit("name");
    reveal_strlit("physics");
    reveal_strlit("radarCrossSection");
    reveal_strlit("recognitionColors");
    reveal_strlit("rotation");
    reveal_strlit("translation");
    assert(is_ascii_text("angularVelocity"@));
    assert(is_ascii_text("boundingObject"@));
    assert(is_ascii_text("children"@));
    assert(is_ascii_text("color"@));
    assert(is_ascii_text("contactMaterial"@));
    assert(is_ascii_text("description"@));
    assert(is_ascii_text("gradual"@));
    assert(is_ascii_text("immersionProperties"@));
    assert(is_ascii_text("linearVelocity"@));
    assert(is_ascii_text("locked"@));
    assert(is_ascii_text("model"@));
    assert(is_ascii_text("name"@));
    assert(is_ascii_text("physics"@));
    assert(is_ascii_text("radarCrossSection"@));
    assert(is_ascii_text("recognitionColors"@));
    assert(is_ascii_text("rotation"@));
    assert(is_ascii_text("translation"@));
    let t = fields_led_spec();
    assert forall|i: int| 0 <= i < t.len() implies is_ascii_text(#[trigger] t[i].0) by { if i == 0 {} else if i == 1 {} else if i == 2 {} else if i == 3 {} else if i == 4 {} else if i == 5 {} else if i == 6 {} else if i == 7 {} else if i == 8 {} else if i == 9 {} else if i == 10 {} else if i == 11 {} else if i == 12 {} else if i == 13 {} else if i == 14 {} else if i == 15 {} else {} }
}

proof fn lemma_ascii_emitter()
    ensures
        ascii_names(fields_emitter_spec()),
{
    reveal(ascii_names);
    reveal_strlit("allowed_channels");
    reveal_strlit("angularVelocity");
    reveal_strlit("aperture");
    reveal_strlit("baud_rate");
    reveal_strlit("boundingObject");
    reveal_strlit("buffer_size");
    reveal_strlit("byte_size");
    reveal_strlit("channel");
    reveal_strlit("children");
    reveal_strlit("contactMaterial");
    reveal_strlit("description");
    reveal_strlit("immersionProperties");
    reveal_strlit("linearVelocity");
    reveal_strlit("locked");
    reveal_strlit("max_range");
    reveal_strlit("model");
    reveal_strlit("name");
    reveal_strlit("physics");
    reveal_strlit("radarCrossSection");
    reveal_strlit("range");
    reveal_strlit("recognitionColors");
    reveal_strlit("rotation");
    reveal_strlit("translation");
    reveal_strlit("type");
    assert(is_ascii_text("allowed_channels"@));
    assert(is_ascii_text("angularVelocity"@));
    assert(is_ascii_text("aperture"@));
    assert(is_ascii_text("baud_rate"@));
    assert(is_ascii_text("boundingObject"@));
    assert(is_ascii_text("buffer_size"@));
    assert(is_ascii_text("byte_size"@));
    assert(is_ascii_text("channel"@));
    assert(is_ascii_text("children"@));
    assert(is_ascii_text("contactMaterial"@));
    assert(is_ascii_text("description"@));
    assert(is_ascii_text("immersionProperties"@));
    assert(is_ascii_text("linearVelocity"@));
    assert(is_ascii_text("locked"@));
    assert(is_ascii_text("max_range"@));
    assert(is_ascii_text("model"@));
    assert(is_ascii_text("name"@));
    assert(is_ascii_text("physics"@));
    assert(is_ascii_text("radarCrossSection"@));
    assert(is_ascii_text("range"@));
    assert(is_ascii_text("recognitionColors"@));
    assert(is_ascii_text("rotation"@));
    assert(is_ascii_text("translation"@));
    assert(is_ascii_text("type"@));
    let t = fields_emitter_spec();
    assert forall|i: int| 0 <= i < t.len() implies is_ascii_text(#[trigger] t[i].0) by { if i == 0 {} else if i == 1 {} else if i == 2 {} else if i == 3 {} else if i == 4 {} else if i == 5 {} else if i == 6 {} else if i == 7 {} else if i == 8 {} else if i == 9 {} else if i == 10 {} else if i == 11 {} else if i == 12 {} else if i == 13 {} else if i == 14 {} else if i == 15 {} else if i == 16 {} else if i == 17 {} else if i == 18 {} else if i == 19 {} else if i == 20 {} else if i == 21 {} else if i == 22 {} else {} }
}

proof fn lemma_ascii_receiver()
    ensures
        ascii_names(fields_receiver_spec()),
{
    reveal(ascii_names);
    reveal_strlit("allowed_channels");
    reveal_strlit("angularVelocity");
    reveal_strlit("aperture");
    reveal_strlit("baud_rate");
    reveal_strlit("boundingObject");
    reveal_strlit("buffer_size");
    reveal_strlit("byte_size");
    reveal_strlit("channel");
    reveal_strlit("children");
    reveal_strlit("contactMaterial");
    reveal_strlit("description");
    reveal_strlit("direction_noise");
    reveal_strlit("immersionProperties");
    reveal_strlit("linearVelocity");
    reveal_strlit("locked");
    reveal_strlit("model");
    reveal_strlit("name");
    reveal_strlit("physics");
    reveal_strlit("radarCrossSection");
    reveal_strlit("recognitionColors");
    reveal_strlit("rotation");
    reveal_strlit("signal_strength_noise");
    reveal_strlit("translation");
    reveal_strlit("type");
    assert(is_ascii_text("allowed_channels"@));
    assert(is_ascii_text("angularVelocity"@));
    assert(is_ascii_text("aperture"@));
    assert(is_ascii_text("baud_rate"@));
    assert(is_ascii_text("boundingObject"@));
    assert(is_ascii_text("buffer_size"@));
    assert(is_ascii_text("byte_size"@));
    assert(is_ascii_text("channel"@));
    assert(is_ascii_text("children"@));
    assert(is_ascii_text("contactMaterial"@));
    assert(is_ascii_text("description"@));
    assert(is_ascii_text("direction_noise"@));
    assert(is_ascii_text("immersionProperties"@));
    assert(is_ascii_text("linearVelocity"@));
    assert(is_ascii_text("locked"@));
    assert(is_ascii_text("model"@));
    assert(is_ascii_text("name"@));
    assert(is_ascii_text("physics"@));
    assert(is_ascii_text("radarCrossSection"@));
    assert(is_ascii_text("recognitionColors"@));
    assert(is_ascii_text("rotation"@));
    assert(is_ascii_text("signal_strength_noise"@));
    assert(is_ascii_text("translation"@));
    assert(is_ascii_text("type"@));
    let t = fields_receiver_spec();
    assert forall|i: int| 0 <= i < t.len() implies is_ascii_text(#[trigger] t[i].0) by { if i == 0 {} else if i == 1 {} else if i == 2 {} else if i == 3 {} else if i == 4 {} else if i == 5 {} else if i == 6 {} else if i == 7 {} else if i == 8 {} else if i == 9 {} else if i == 10 {} else if i == 11 {} else if i == 12 {} else if i == 13 {} else if i == 14 {} else if i == 15 {} else if i == 16 {} else if i == 17 {} else if i == 18 {} else if i == 19 {} else if i == 20 {} else if i == 21 {} else if i == 22 {} else {} }
}

proof fn lemma_ascii_connector()
    ensures
        ascii_names(fields_connector_spec()),
{
    reveal(ascii_names);
    reveal_strlit("angularVelocity");
    reveal_strlit("auto_lock");
    reveal_strlit("axis_tolerance");
    reveal_strlit("boundingObject");
    reveal_strlit("children");
    reveal_strlit("contactMaterial");
    reveal_strlit("description");
    reveal_strlit("distance_tolerance");
    reveal_strlit("immersionProperties");
    reveal_strlit("is_locked");
    reveal_strlit("linearVelocity");
    reveal_strlit("locked");
    reveal_strlit("model");
    reveal_strlit("name");
    reveal_strlit("number_of_rotations");
    reveal_strlit("physics");
    reveal_strlit("radarCrossSection");
    reveal_strlit("recognitionColors");
    reveal_strlit("rotation");
    reveal_strlit("rotation_tolerance");
    reveal_strlit("shear_strength");
    reveal_strlit("snap");
    reveal_strlit("tensile_strength");
    reveal_strlit("translation");
    reveal_strlit("type");
    reveal_strlit("unilateral_lock");
    reveal_strlit("unilateral_unlock");
    assert(is_ascii_text("angularVelocity"@));
    assert(is_ascii_text("auto_lock"@));
    assert(is_ascii_text("axis_tolerance"@));
    assert(is_ascii_text("boundingObject"@));
    assert(is_ascii_text("children"@));
    assert(is_ascii_text("contactMaterial"@));
    assert(is_ascii_text("description"@));
    assert(is_ascii_text("distance_tolerance"@));
    assert(is_ascii_text("immersionProperties"@));
    assert(is_ascii_text("is_locked"@));
    assert(is_ascii_text("linearVelocity"@));
    assert(is_ascii_text("locked"@));
    assert(is_ascii_text("model"@));
    assert(is_ascii_text("name"@));
    assert(is_ascii_text("number_of_rotations"@));
    assert(is_ascii_text("physics"@));
    assert(is_ascii_text("radarCrossSection"@));
    assert(is_ascii_text("recognitionColors"@));
    assert(is_ascii_text("rotation"@));
    assert(is_ascii_text("rotation_tolerance"@));
    assert(is_ascii_text("shear_strength"@));
    assert(is_ascii_text("snap"@));
    assert(is_ascii_text("tensile_strength"@));
    assert(is_ascii_text("translation"@));
    assert(is_ascii_text("type"@));
    assert(is_ascii_text("unilateral_lock"@));
    assert(is_ascii_text("unilateral_unlock"@));
    let t = fields_connector_spec();
    assert forall|i: int| 0 <= i < t.len() implies is_ascii_text(#[trigger] t[i].0) by { if i == 0 {} else if i == 1 {} else if i == 2 {} else if i == 3 {} else if i == 4 {} else if i == 5 {} else if i == 6 {} else if i == 7 {} else if i == 8 {} else if i == 9 {} else if i == 10 {} else if i == 11 {} else if i == 12 {} else if i == 13 {} else if i == 14 {} else if i == 15 {} else if i == 16 {} else if i == 17 {} else if i == 18 {} else if i == 19 {} else if i == 20 {} else if i == 21 {} else if i == 22 {} else if i == 23 {} else if i == 24 {} else if i == 25 {} else {} }
}

proof fn lemma_ascii_display()
    ensures
        ascii_names(fields_display_spec()),
{
    reveal(ascii_names);
    reveal_strlit("angularVelocity");
    reveal_strlit("boundingObject");
    reveal_strlit("children");
    reveal_strlit("contactMaterial");
    reveal_strlit("description");
    reveal_strlit("height");
    reveal_strlit("immersionProperties");
    reveal_strlit("linearVelocity");
    reveal_strlit("locked");
    reveal_strlit("model");
    reveal_strlit("name");
    reveal_strlit("physics");
    reveal_strlit("radarCrossSection");
    reveal_strlit("recognitionColors");
    reveal_strlit("rotation");
    reveal_strlit("translation");
    reveal_strlit("width");
    assert(is_ascii_text("angularVelocity"@));
    assert(is_ascii_text("boundingObject"@));
    assert(is_ascii_text("children"@));
    assert(is_ascii_text("contactMaterial"@));
    assert(is_ascii_text("description"@));
    assert(is_ascii_text("height"@));
    assert(is_ascii_text("immersionProperties"@));
    assert(is_ascii_text("linearVelocity"@));
    assert(is_ascii_text("locked"@));
    assert(is_ascii_text("model"@));
    assert(is_ascii_text("name"@));
    assert(is_ascii_text("physics"@));
    assert(is_ascii_text("radarCrossSection"@));
    assert(is_ascii_text("recognitionColors"@));
    assert(is_ascii_text("rotation"@));
    assert(is_ascii_text("translation"@));
    assert(is_ascii_text("width"@));
    let t = fields_display_spec();
    assert forall|i: int| 0 <= i < t.len() implies is_ascii_text(#[trigger] t[i].0) by { if i == 0 {} else if i == 1 {} else if i == 2 {} else if i == 3 {} else if i == 4 {} else if i == 5 {} else if i == 6 {} else if i == 7 {} else if i == 8 {} else if i == 9 {} else if i == 10 {} else if i == 11 {} else if i == 12 {} else if i == 13 {} else if i == 14 {} else if i == 15 {} else {} }
}

proof fn lemma_ascii_pen()
    ensures
        ascii_names(fields_pen_spec()),
{
    reveal(ascii_names);
    reveal_strlit("angularVelocity");
    reveal_strlit("boundingObject");
    reveal_strlit("children");
    reveal_strlit("contactMaterial");
    reveal_strlit("description");
    reveal_strlit("immersionProperties");
    reveal_strlit("ink_color");
    reveal_strlit("ink_density");
    reveal_strlit("lead_size");
    reveal_strlit("linearVelocity");
    reveal_strlit("locked");
    reveal_strlit("max_distance");
    reveal_strlit("model");
    reveal_strlit("name");
    reveal_strlit("physics");
    reveal_strlit("radarCrossSection");
    reveal_strlit("recognitionColors");
    reveal_strlit("rotation");
    reveal_strlit("translation");
    reveal_strlit("write");
    assert(is_ascii_text("angularVelocity"@));
    assert(is_ascii_text("boundingObject"@));
    assert(is_ascii_text("children"@));
    assert(is_ascii_text("contactMaterial"@));
    assert(is_ascii_text("description"@));
    assert(is_ascii_text("immersionProperties"@));
    assert(is_ascii_text("ink_color"@));
    assert(is_ascii_text("ink_density"@));
    assert(is_ascii_text("lead_size"@));
    assert(is_ascii_text("linearVelocity"@));
    assert(is_ascii_text("locked"@));
    assert(is_ascii_text("max_distance"@));
    assert(is_ascii_text("model"@));
    assert(is_ascii_text("name"@));
    assert(is_ascii_text("physics"@));
    assert(is_ascii_text("radarCrossSection"@));
    assert(is_ascii_text("recognitionColors"@));
    assert(is_ascii_text("rotation"@));
    assert(is_ascii_text("translation"@));
    assert(is_ascii_text("write"@));
    let t = fields_pen_spec();
    assert forall|i: int| 0 <= i < t.len() implies is_ascii_text(#[trigger] t[i].0) by { if i == 0 {} else if i == 1 {} else if i == 2 {} else if i == 3 {} else if i == 4 {} else if i == 5 {} else if i == 6 {} else if i == 7 {} else if i == 8 {} else if i == 9 {} else if i == 10 {} else if i == 11 {} else if i == 12 {} else if i == 13 {} else if i == 14 {} else if i == 15 {} else if i == 16 {} else if i == 17 {} else if i == 18 {} else {} }
}

proof fn lemma_ascii_speaker()
    ensures
        ascii_names(fields_speaker_spec()),
{
    reveal(ascii_names);
    reveal_strlit("angularVelocity");
    reveal_strlit("boundingObject");
    reveal_strlit("children");
    reveal_strlit("contactMaterial");
    reveal_strlit("description");
    reveal_strlit("immersionProperties");
    reveal_strlit("linearVelocity");
    reveal_strlit("locked");
    reveal_strlit("model");
    reveal_strlit("name");
    reveal_strlit("physics");
    reveal_strlit("radarCrossSection");
    reveal_strlit("recognitionColors");
    reveal_strlit("rotation");
    reveal_strlit("translation");
    assert(is_ascii_text("angularVelocity"@));
    assert(is_ascii_text("boundingObject"@));
    assert(is_ascii_text("children"@));
    assert(is_ascii_text("contactMaterial"@));
    assert(is_ascii_text("description"@));
    assert(is_ascii_text("immersionProperties"@));
    assert(is_ascii_text("linearVelocity"@));
    assert(is_ascii_text("locked"@));
    assert(is_ascii_text("model"@));
    assert(is_ascii_text("name"@));
    assert(is_ascii_text("physics"@));
    assert(is_ascii_text("radarCrossSection"@));
    assert(is_ascii_text("recognitionColors"@));
    assert(is_ascii_text("rotation"@));
    assert(is_ascii_text("translation"@));
    let t = fields_speaker_spec();
    assert forall|i: int| 0 <= i < t.len() implies is_ascii_text(#[trigger] t[i].0) by { if i == 0 {} else if i == 1 {} else if i == 2 {} else if i == 3 {} else if i == 4 {} else if i == 5 {} else if i == 6 {} else if i == 7 {} else if i == 8 {} else if i == 9 {} else if i == 10 {} else if i == 11 {} else if i == 12 {} else if i == 13 {} else {} }
}

proof fn lemma_ascii_charger()
    ensures
        ascii_names(fields_charger_spec()),
{
    reveal(ascii_names);
    reveal_strlit("angularVelocity");
    reveal_strlit("battery");
    reveal_strlit("boundingObject");
    reveal_strlit("children");
    reveal_strlit("contactMaterial");
    reveal_strlit("description");
    reveal_strlit("emissive_color");
    reveal_strlit("gradual");
    reveal_strlit("immersionProperties");
    reveal_strlit("linearVelocity");
    reveal_strlit("locked");
    reveal_strlit("model");
    reveal_strlit("name");
    reveal_strlit("physics");
    reveal_strlit("radarCrossSection");
    reveal_strlit("radius");
    reveal_strlit("recognitionColors");
    reveal_strlit("rotation");
    reveal_strlit("translation");
    assert(is_ascii_text("angularVelocity"@));
    assert(is_ascii_text("battery"@));
    assert(is_ascii_text("boundingObject"@));
    assert(is_ascii_text("children"@));
    assert(is_ascii_text("contactMaterial"@));
    assert(is_ascii_text("description"@));
    assert(is_ascii_text("emissive_color"@));
    assert(is_ascii_text("gradual"@));
    assert(is_ascii_text("immersionProperties"@));
    assert(is_ascii_text("linearVelocity"@));
    assert(is_ascii_text("locked"@));
    assert(is_ascii_text("model"@));
    assert(is_ascii_text("name"@));
    assert(is_ascii_text("physics"@));
    assert(is_ascii_text("radarCrossSection"@));
    assert(is_ascii_text("radius"@));
    assert(is_ascii_text("recognitionColors"@));
    assert(is_ascii_text("rotation"@));
    assert(is_ascii_text("translation"@));
    let t = fields_charger_spec();
    assert forall|i: int| 0 <= i < t.len() implies is_ascii_text(#[trigger] t[i].0) by { if i == 0 {} else if i == 1 {} else if i == 2 {} else if i == 3 {} else if i == 4 {} else if i == 5 {} else if i == 6 {} else if i == 7 {} else if i == 8 {} else if i == 9 {} else if i == 10 {} else if i == 11 {} else if i == 12 {} else if i == 13 {} else if i == 14 {} else if i == 15 {} else if i == 16 {} else if i == 17 {} else {} }
}

proof fn lemma_ascii_vacuum_gripper()
    ensures
        ascii_names(fields_vacuum_gripper_spec()),
{
    reveal(ascii_names);
    reveal_strlit("angularVelocity");
    reveal_strlit("boundingObject");
    reveal_strlit("children");
    reveal_strlit("contactMaterial");
    reveal_strlit("contact_points");
    reveal_strlit("description");
    reveal_strlit("immersionProperties");
    reveal_strlit("is_on");
    reveal_strlit("linearVelocity");
    reveal_strlit("locked");
    reveal_strlit("model");
    reveal_strlit("name");
    reveal_strlit("physics");
    reveal_strlit("radarCrossSection");
    reveal_strlit("recognitionColors");
    reveal_strlit("rotation");
    reveal_strlit("shear_strength");
    reveal_strlit("tensile_strength");
    reveal_strlit("translation");
    assert(is_ascii_text("angularVelocity"@));
    assert(is_ascii_text("boundingObject"@));
    assert(is_ascii_text("children"@));
    assert(is_ascii_text("contactMaterial"@));
    assert(is_ascii_text("contact_points"@));
    assert(is_ascii_text("description"@));
    assert(is_ascii_text("immersionProperties"@));
    assert(is_ascii_text("is_on"@));
    assert(is_ascii_text("linearVelocity"@));
    assert(is_ascii_text("locked"@));
    assert(is_ascii_text("model"@));
    assert(is_ascii_text("name"@));
    assert(is_ascii_text("physics"@));
    assert(is_ascii_text("radarCrossSection"@));
    assert(is_ascii_text("recognitionColors"@));
    assert(is_ascii_text("rotation"@));
    assert(is_ascii_text("shear_strength"@));
    assert(is_ascii_text("tensile_strength"@));
    assert(is_ascii_text("translation"@));
    let t = fields_vacuum_gripper_spec();
    assert forall|i: int| 0 <= i < t.len() implies is_ascii_text(#[trigger] t[i].0) by { if i == 0 {} else if i == 1 {} else if i == 2 {} else if i == 3 {} else if i == 4 {} else if i == 5 {} else if i == 6 {} else if i == 7 {} else if i == 8 {} else if i == 9 {} else if i == 10 {} else if i == 11 {} else if i == 12 {} else if i == 13 {} else if i == 14 {} else if i == 15 {} else if i == 16 {} else if i == 17 {} else {} }
}

proof fn lemma_ascii_track()
    ensures
        ascii_names(fields_track_spec()),
{
    reveal(ascii_names);
    reveal_strlit("angularVelocity");
    reveal_strlit("animated_geometry");
    reveal_strlit("boundingObject");
    reveal_strlit("children");
    reveal_strlit("contactMaterial");
    reveal_strlit("description");
    reveal_strlit("device");
    reveal_strlit("geometries_count");
    reveal_strlit("immersionProperties");
    reveal_strlit("linearVelocity");
    reveal_strlit("locked");
    reveal_strlit("model");
    reveal_strlit("name");
    reveal_strlit("physics");
    reveal_strlit("radarCrossSection");
    reveal_strlit("recognitionColors");
    reveal_strlit("rotation");
    reveal_strlit("texture_animation");
    reveal_strlit("translation");
    assert(is_ascii_text("angularVelocity"@));
    assert(is_ascii_text("animated_geometry"@));
    assert(is_ascii_text("boundingObject"@));
    assert(is_ascii_text("children"@));
    assert(is_ascii_text("contactMaterial"@));
    assert(is_ascii_text("description"@));
    assert(is_ascii_text("device"@));
    assert(is_ascii_text("geometries_count"@));
    assert(is_ascii_text("immersionProperties"@));
    assert(is_ascii_text("linearVelocity"@));
    assert(is_ascii_text("locked"@));
    assert(is_ascii_text("model"@));
    assert(is_ascii_text("name"@));
    assert(is_ascii_text("physics"@));
    assert(is_ascii_text("radarCrossSection"@));
    assert(is_ascii_text("recognitionColors"@));
    assert(is_ascii_text("rotation"@));
    assert(is_ascii_text("texture_animation"@));
    assert(is_ascii_text("translation"@));
    let t = fields_track_spec();
    assert forall|i: int| 0 <= i < t.len() implies is_ascii_text(#[trigger] t[i].0) by { if i == 0 {} else if i == 1 {} else if i == 2 {} else if i == 3 {} else if i == 4 {} else if i == 5 {} else if i == 6 {} else if i == 7 {} else if i == 8 {} else if i == 9 {} else if i == 10 {} else if i == 11 {} else if i == 12 {} else if i == 13 {} else if i == 14 {} else if i == 15 {} else if i == 16 {} else if i == 17 {} else {} }
}

proof fn lemma_ascii_track_wheel()
    ensures
        ascii_names(fields_track_wheel_spec()),
{
    reveal(ascii_names);
    reveal_strlit("children");
    reveal_strlit("inner");
    reveal_strlit("position");
    reveal_strlit("radius");
    assert(is_ascii_text("children"@));
    assert(is_ascii_text("inner"@));
    assert(is_ascii_text("position"@));
    assert(is_ascii_text("radius"@));
    let t = fields_track_wheel_spec();
    assert forall|i: int| 0 <= i < t.len() implies is_ascii_text(#[trigger] t[i].0) by { if i == 0 {} else if i == 1 {} else if i == 2 {} else {} }
}

proof fn lemma_ascii_skin()
    ensures
        ascii_names(fields_skin_spec()),
{
    reveal(ascii_names);
    reveal_strlit("appearance");
    reveal_strlit("bones");
    reveal_strlit("cast_shadows");
    reveal_strlit("description");
    reveal_strlit("model");
    reveal_strlit("model_url");
    reveal_strlit("name");
    reveal_strlit("rotation");
    reveal_strlit("rotation_step");
    reveal_strlit("scale");
    reveal_strlit("translation");
    reveal_strlit("translation_step");
    assert(is_ascii_text("appearance"@));
    assert(is_ascii_text("bones"@));
    assert(is_ascii_text("cast_shadows"@));
    assert(is_ascii_text("description"@));
    assert(is_ascii_text("model"@));
    assert(is_ascii_text("model_url"@));
    assert(is_ascii_text("name"@));
    assert(is_ascii_text("rotation"@));
    assert(is_ascii_text("rotation_step"@));
    assert(is_ascii_text("scale"@));
    assert(is_ascii_text("translation"@));
    assert(is_ascii_text("translation_step"@));
    let t = fields_skin_spec();
    assert forall|i: int| 0 <= i < t.len() implies is_ascii_text(#[trigger] t[i].0) by { if i == 0 {} else if i == 1 {} else if i == 2 {} else if i == 3 {} else if i == 4 {} else if i == 5 {} else if i == 6 {} else if i == 7 {} else if i == 8 {} else if i == 9 {} else if i == 10 {} else {} }
}

proof fn lemma_ascii_background()
    ensures
        ascii_names(fields_background_spec()),
{
    reveal(ascii_names);
    reveal_strlit("back_irradiance_url");
    reveal_strlit("back_url");
    reveal_strlit("bottom_irradiance_url");
    reveal_strlit("bottom_url");
    reveal_strlit("front_irradiance_url");
    reveal_strlit("front_url");
    reveal_strlit("left_irradiance_url");
    reveal_strlit("left_url");
    reveal_strlit("luminosity");
    reveal_strlit("right_irradiance_url");
    reveal_strlit("right_url");
    reveal_strlit("sky_color");
    reveal_strlit("top_irradiance_url");
    reveal_strlit("top_url");
    assert(is_ascii_text("back_irradiance_url"@));
    assert(is_ascii_text("back_url"@));
    assert(is_ascii_text("bottom_irradiance_url"@));
    assert(is_ascii_text("bottom_url"@));
    assert(is_ascii_text("front_irradiance_url"@));
    assert(is_ascii_text("front_url"@));
    assert(is_ascii_text("left_irradiance_url"@));
    assert(is_ascii_text("left_url"@));
    assert(is_ascii_text("luminosity"@));
    assert(is_ascii_text("right_irradiance_url"@));
    assert(is_ascii_text("right_url"@));
    assert(is_ascii_text("sky_color"@));
    assert(is_ascii_text("top_irradiance_url"@));
    assert(is_ascii_text("top_url"@));
    let t = fields_background_spec();
    assert forall|i: int| 0 <= i < t.len() implies is_ascii_text(#[trigger] t[i].0) by { if i == 0 {} else if i == 1 {} else if i == 2 {} else if i == 3 {} else if i == 4 {} else if i == 5 {} else if i == 6 {} else if i == 7 {} else if i == 8 {} else if i == 9 {} else if i == 10 {} else if i == 11 {} else if i == 12 {} else {} }
}

proof fn lemma_ascii_fog()
    ensures
        ascii_names(fields_fog_spec()),
{
    reveal(ascii_names);
    reveal_strlit("color");
    reveal_strlit("fog_type");
    reveal_strlit("visibility_range");
    assert(is_ascii_text("color"@));
    assert(is_ascii_text("fog_type"@));
    assert(is_ascii_text("visibility_range"@));
    let t = fields_fog_spec();
    assert forall|i: int| 0 <= i < t.len() implies is_ascii_text(#[trigger] t[i].0) by { if i == 0 {} else if i == 1 {} else {} }
}

proof fn lemma_ascii_directional_light()
    ensures
        ascii_names(fields_directional_light_spec()),
{
    reveal(ascii_names);
    reveal_strlit("ambient_intensity");
    reveal_strlit("cast_shadows");
    reveal_strlit("color");
    reveal_strlit("direction");
    reveal_strlit("intensity");
    reveal_strlit("on");
    assert(is_ascii_text("ambient_intensity"@));
    assert(is_ascii_text("cast_shadows"@));
    assert(is_ascii_text("color"@));
    assert(is_ascii_text("direction"@));
    assert(is_ascii_text("intensity"@));
    assert(is_ascii_text("on"@));
    let t = fields_directional_light_spec();
    assert forall|i: int| 0 <= i < t.len() implies is_ascii_text(#[trigger] t[i].0) by { if i == 0 {} else if i == 1 {} else if i == 2 {} else if i == 3 {} else if i == 4 {} else {} }
}

proof fn lemma_ascii_point_light()
    ensures
        ascii_names(fields_point_light_spec()),
{
    reveal(ascii_names);
    reveal_strlit("ambient_intensity");
    reveal_strlit("attenuation");
    reveal_strlit("cast_shadows");
    reveal_strlit("color");
    reveal_strlit("intensity");
    reveal_strlit("location");
    reveal_strlit("on");
    reveal_strlit("radius");
    assert(is_ascii_text("ambient_intensity"@));
    assert(is_ascii_text("attenuation"@));
    assert(is_ascii_text("cast_shadows"@));
    assert(is_ascii_text("color"@));
    assert(is_ascii_text("intensity"@));
    assert(is_ascii_text("location"@));
    assert(is_ascii_text("on"@));
    assert(is_ascii_text("radius"@));
    let t = fields_point_light_spec();
    assert forall|i: int| 0 <= i < t.len() implies is_ascii_text(#[trigger] t[i].0) by { if i == 0 {} else if i == 1 {} else if i == 2 {} else if i == 3 {} else if i == 4 {} else if i == 5 {} else if i == 6 {} else {} }
}

proof fn lemma_ascii_spot_light()
    ensures
        ascii_names(fields_spot_light_spec()),
{
    reveal(ascii_names);
    reveal_strlit("ambient_intensity");
    reveal_strlit("attenuation");
    reveal_strlit("beam_width");
    reveal_strlit("cast_shadows");
    reveal_strlit("color");
    reveal_strlit("cut_off_angle");
    reveal_strlit("direction");
    reveal_strlit("intensity");
    reveal_strlit("location");
    reveal_strlit("on");
    reveal_strlit("radius");
    assert(is_ascii_text("ambient_intensity"@));
    assert(is_ascii_text("attenuation"@));
    assert(is_ascii_text("beam_width"@));
    assert(is_ascii_text("cast_shadows"@));
    assert(is_ascii_text("color"@));
    assert(is_ascii_text("cut_off_angle"@));
    assert(is_ascii_text("direction"@));
    assert(is_ascii_text("intensity"@));
    assert(is_ascii_text("location"@));
    assert(is_ascii_text("on"@));
    assert(is_ascii_text("radius"@));
    let t = fields_spot_light_spec();
    assert forall|i: int| 0 <= i < t.len() implies is_ascii_text(#[trigger] t[i].0) by { if i == 0 {} else if i == 1 {} else if i == 2 {} else if i == 3 {} else if i == 4 {} else if i == 5 {} else if i == 6 {} else if i == 7 {} else if i == 8 {} else if i == 9 {} else {} }
}

proof fn lemma_ascii_physics()
    ensures
        ascii_names(fields_physics_spec()),
{
    reveal(ascii_names);
    reveal_strlit("center_of_mass");
    reveal_strlit("damping");
    reveal_strlit("density");
    reveal_strlit("inertia_matrix");
    reveal_strlit("mass");
    assert(is_ascii_text("center_of_mass"@));
    assert(is_ascii_text("damping"@));
    assert(is_ascii_text("density"@));
    assert(is_ascii_text("inertia_matrix"@));
    assert(is_ascii_text("mass"@));
    let t = fields_physics_spec();
    assert forall|i: int| 0 <= i < t.len() implies is_ascii_text(#[trigger] t[i].0) by { if i == 0 {} else if i == 1 {} else if i == 2 {} else if i == 3 {} else {} }
}

proof fn lemma_ascii_damping()
    ensures
        ascii_names(fields_damping_spec()),
{
    reveal(ascii_names);
    reveal_strlit("angular");
    reveal_strlit("linear");
    assert(is_ascii_text("angular"@));
    assert(is_ascii_text("linear"@));
    let t = fields_damping_spec();
    assert forall|i: int| 0 <= i < t.len() implies is_ascii_text(#[trigger] t[i].0) by { if i == 0 {} else {} }
}

proof fn lemma_ascii_contact_properties()
    ensures
        ascii_names(fields_contact_properties_spec()),
{
    reveal(ascii_names);
    reveal_strlit("bounce");
    reveal_strlit("bounce_velocity");
    reveal_strlit("bump_sound");
    reveal_strlit("coulomb_friction");
    reveal_strlit("force_dependent_slip");
    reveal_strlit("friction_rotation");
    reveal_strlit("material1");
    reveal_strlit("material2");
    reveal_strlit("max_contact_joints");
    reveal_strlit("roll_sound");
    reveal_strlit("rolling_friction");
    reveal_strlit("slide_sound");
    reveal_strlit("soft_cfm");
    reveal_strlit("soft_erp");
    assert(is_ascii_text("bounce"@));
    assert(is_ascii_text("bounce_velocity"@));
    assert(is_ascii_text("bump_sound"@));
    assert(is_ascii_text("coulomb_friction"@));
    assert(is_ascii_text("force_dependent_slip"@));
    assert(is_ascii_text("friction_rotation"@));
    assert(is_ascii_text("material1"@));
    assert(is_ascii_text("material2"@));
    assert(is_ascii_text("max_contact_joints"@));
    assert(is_ascii_text("roll_sound"@));
    assert(is_ascii_text("rolling_friction"@));
    assert(is_ascii_text("slide_sound"@));
    assert(is_ascii_text("soft_cfm"@));
    assert(is_ascii_text("soft_erp"@));
    let t = fields_contact_properties_spec();
    assert forall|i: int| 0 <= i < t.len() implies is_ascii_text(#[trigger] t[i].0) by { if i == 0 {} else if i == 1 {} else if i == 2 {} else if i == 3 {} else if i == 4 {} else if i == 5 {} else if i == 6 {} else if i == 7 {} else if i == 8 {} else if i == 9 {} else if i == 10 {} else if i == 11 {} else if i == 12 {} else {} }
}

proof fn lemma_ascii_immersion_properties()
    ensures
        ascii_names(fields_immersion_properties_spec()),
{
    reveal(ascii_names);
    reveal_strlit("drag_force_coefficients");
    reveal_strlit("drag_torque_coefficients");
    reveal_strlit("fluid_name");
    reveal_strlit("reference_area");
    reveal_strlit("viscous_resistance_force_coefficient");
    reveal_strlit("viscous_resistance_torque_coefficient");
    assert(is_ascii_text("drag_force_coefficients"@));
    assert(is_ascii_text("drag_torque_coefficients"@));
    assert(is_ascii_text("fluid_name"@));
    assert(is_ascii_text("reference_area"@));
    assert(is_ascii_text("viscous_resistance_force_coefficient"@));
    assert(is_ascii_text("viscous_resistance_torque_coefficient"@));
    let t = fields_immersion_properties_spec();
    assert forall|i: int| 0 <= i < t.len() implies is_ascii_text(#[trigger] t[i].0) by { if i == 0 {} else if i == 1 {} else if i == 2 {} else if i == 3 {} else if i == 4 {} else {} }
}

proof fn lemma_ascii_solid_reference()
    ensures
        ascii_names(fields_solid_reference_spec()),
{
    reveal(ascii_names);
    reveal_strlit("solid_name");
    assert(is_ascii_text("solid_name"@));
    let t = fields_solid_reference_spec();
    assert forall|i: int| 0 <= i < t.len() implies is_ascii_text(#[trigger] t[i].0) by { {} }
}

proof fn lemma_ascii_color()
    ensures
        ascii_names(fields_color_spec()),
{
    reveal(ascii_names);
    reveal_strlit("color");
    assert(is_ascii_text("color"@));
    let t = fields_color_spec();
    assert forall|i: int| 0 <= i < t.len() implies is_ascii_text(#[trigger] t[i].0) by { {} }
}

proof fn lemma_ascii_coordinate()
    ensures
        ascii_names(fields_coordinate_spec()),
{
    reveal(ascii_names);
    reveal_strlit("point");
    assert(is_ascii_text("point"@));
    let t = fields_coordinate_spec();
    assert forall|i: int| 0 <= i < t.len() implies is_ascii_text(#[trigger] t[i].0) by { {} }
}

proof fn lemma_ascii_normal()
    ensures
        ascii_names(fields_normal_spec()),
{
    reveal(ascii_names);
    reveal_strlit("vector");
    assert(is_ascii_text("vector"@));
    let t = fields_normal_spec();
    assert forall|i: int| 0 <= i < t.len() implies is_ascii_text(#[trigger] t[i].0) by { {} }
}

proof fn lemma_ascii_texture_coordinate()
    ensures
        ascii_names(fields_texture_coordinate_spec()),
{
    reveal(ascii_names);
    reveal_strlit("point");
    assert(is_ascii_text("point"@));
    let t = fields_texture_coordinate_spec();
    assert forall|i: int| 0 <= i < t.len() implies is_ascii_text(#[trigger] t[i].0) by { {} }
}

proof fn lemma_ascii_slot()
    ensures
        ascii_names(fields_slot_spec()),
{
    reveal(ascii_names);
    reveal_strlit("end_point");
    reveal_strlit("type_");
    assert(is_ascii_text("end_point"@));
    assert(is_ascii_text("type_"@));
    let t = fields_slot_spec();
    assert forall|i: int| 0 <= i < t.len() implies is_ascii_text(#[trigger] t[i].0) by { if i == 0 {} else {} }
}

proof fn lemma_ascii_focus()
    ensures
        ascii_names(fields_focus_spec()),
{
    reveal(ascii_names);
    reveal_strlit("focal_distance");
    reveal_strlit("focal_length");
    reveal_strlit("max_focal_distance");
    reveal_strlit("min_focal_distance");
    assert(is_ascii_text("focal_distance"@));
    assert(is_ascii_text("focal_length"@));
    assert(is_ascii_text("max_focal_distance"@));
    assert(is_ascii_text("min_focal_distance"@));
    let t = fields_focus_spec();
    assert forall|i: int| 0 <= i < t.len() implies is_ascii_text(#[trigger] t[i].0) by { if i == 0 {} else if i == 1 {} else if i == 2 {} else {} }
}

proof fn lemma_ascii_lens()
    ensures
        ascii_names(fields_lens_spec()),
{
    reveal(ascii_names);
    reveal_strlit("center");
    reveal_strlit("radial_coefficients");
    reveal_strlit("tangential_coefficients");
    assert(is_ascii_text("center"@));
    assert(is_ascii_text("radial_coefficients"@));
    assert(is_ascii_text("tangential_coefficients"@));
    let t = fields_lens_spec();
    assert forall|i: int| 0 <= i < t.len() implies is_ascii_text(#[trigger] t[i].0) by { if i == 0 {} else if i == 1 {} else {} }
}

proof fn lemma_ascii_lens_flare()
    ensures
        ascii_names(fields_lens_flare_spec()),
{
    reveal(ascii_names);
    reveal_strlit("bias");
    reveal_strlit("blur_iterations");
    reveal_strlit("chroma_distortion");
    reveal_strlit("dispersal");
    reveal_strlit("halo_width");
    reveal_strlit("samples");
    reveal_strlit("scale");
    reveal_strlit("transparency");
    assert(is_ascii_text("bias"@));
    assert(is_ascii_text("blur_iterations"@));
    assert(is_ascii_text("chroma_distortion"@));
    assert(is_ascii_text("dispersal"@));
    assert(is_ascii_text("halo_width"@));
    assert(is_ascii_text("samples"@));
    assert(is_ascii_text("scale"@));
    assert(is_ascii_text("transparency"@));
    let t = fields_lens_flare_spec();
    assert forall|i: int| 0 <= i < t.len() implies is_ascii_text(#[trigger] t[i].0) by { if i == 0 {} else if i == 1 {} else if i == 2 {} else if i == 3 {} else if i == 4 {} else if i == 5 {} else if i == 6 {} else {} }
}

proof fn lemma_ascii_recognition()
    ensures
        ascii_names(fields_recognition_spec()),
{
    reveal(ascii_names);
    reveal_strlit("frame_color");
    reveal_strlit("frame_thickness");
    reveal_strlit("max_objects");
    reveal_strlit("max_range");
    reveal_strlit("occlusion");
    reveal_strlit("segmentation");
    assert(is_ascii_text("frame_color"@));
    assert(is_ascii_text("frame_thickness"@));
    assert(is_ascii_text("max_objects"@));
    assert(is_ascii_text("max_range"@));
    assert(is_ascii_text("occlusion"@));
    assert(is_ascii_text("segmentation"@));
    let t = fields_recognition_spec();
    assert forall|i: int| 0 <= i < t.len() implies is_ascii_text(#[trigger] t[i].0) by { if i == 0 {} else if i == 1 {} else if i == 2 {} else if i == 3 {} else if i == 4 {} else {} }
}

proof fn lemma_ascii_zoom()
    ensures
        ascii_names(fields_zoom_spec()),
{
    reveal(ascii_names);
    reveal_strlit("max_field_of_view");
    reveal_strlit("min_field_of_view");
    assert(is_ascii_text("max_field_of_view"@));
    assert(is_ascii_text("min_field_of_view"@));
    let t = fields_zoom_spec();
    assert forall|i: int| 0 <= i < t.len() implies is_ascii_text(#[trigger] t[i].0) by { if i == 0 {} else {} }
}

proof fn lemma_ascii_rectangle_arena()
    ensures
        ascii_names(fields_rectangle_arena_spec()),
{
    reveal(ascii_names);
    reveal_strlit("floor_appearance");
    reveal_strlit("floor_size");
    reveal_strlit("floor_tile_size");
    reveal_strlit("wall_height");
    assert(is_ascii_text("floor_appearance"@));
    assert(is_ascii_text("floor_size"@));
    assert(is_ascii_text("floor_tile_size"@));
    assert(is_ascii_text("wall_height"@));
    let t = fields_rectangle_arena_spec();
    assert forall|i: int| 0 <= i < t.len() implies is_ascii_text(#[trigger] t[i].0) by { if i == 0 {} else if i == 1 {} else if i == 2 {} else {} }
}

/// Every declared field name of a built-in node type is ASCII text.
proof fn lemma_raw_schema_ascii(name: Seq<char>)
    ensures
        raw_schema(name) matches Some(fs) ==> ascii_names(fs),
{
    lemma_ascii_world_info();
    lemma_ascii_viewpoint();
    lemma_ascii_group();
    lemma_ascii_pose();
    lemma_ascii_transform();
    lemma_ascii_billboard();
    lemma_ascii_shape();
    lemma_ascii_appearance();
    lemma_ascii_pbr_appearance();
    lemma_ascii_material();
    lemma_ascii_image_texture();
    lemma_ascii_texture_transform();
    lemma_ascii_box();
    lemma_ascii_sphere();
    lemma_ascii_capsule();
    lemma_ascii_cylinder();
    lemma_ascii_plane();
    lemma_ascii_cone();
    lemma_ascii_elevation_grid();
    lemma_ascii_indexed_face_set();
    lemma_ascii_indexed_line_set();
    lemma_ascii_point_set();
    lemma_ascii_mesh();
    lemma_ascii_cad_shape();
    lemma_ascii_robot();
    lemma_ascii_solid();
    lemma_ascii_fluid();
    lemma_ascii_accelerometer();
    lemma_ascii_altimeter();
    lemma_ascii_camera();
    lemma_ascii_compass();
    lemma_ascii_distance_sensor();
    lemma_ascii_gps();
    lemma_ascii_gyro();
    lemma_ascii_inertial_unit();
    lemma_ascii_lidar();
    lemma_ascii_light_sensor();
    lemma_ascii_position_sensor();
    lemma_ascii_radar();
    lemma_ascii_range_finder();
    lemma_ascii_touch_sensor();
    lemma_ascii_rotational_motor();
    lemma_ascii_linear_motor();
    lemma_ascii_brake();
    lemma_ascii_propeller();
    lemma_ascii_muscle();
    lemma_ascii_hinge_joint();
    lemma_ascii_hinge2_joint();
    lemma_ascii_ball_joint();
    lemma_ascii_slider_joint();
    lemma_ascii_joint_parameters();
    lemma_ascii_hinge_joint_parameters();
    lemma_ascii_ball_joint_parameters();
    lemma_ascii_led();
    lemma_ascii_emitter();
    lemma_ascii_receiver();
    lemma_ascii_connector();
    lemma_ascii_display();
    lemma_ascii_pen();
    lemma_ascii_speaker();
    lemma_ascii_charger();
    lemma_ascii_vacuum_gripper();
    lemma_ascii_track();
    lemma_ascii_track_wheel();
    lemma_ascii_skin();
    lemma_ascii_background();
    lemma_ascii_fog();
    lemma_ascii_directional_light();
    lemma_ascii_point_light();
    lemma_ascii_spot_light();
    lemma_ascii_physics();
    lemma_ascii_damping();
    lemma_ascii_contact_properties();
    lemma_ascii_immersion_properties();
    lemma_ascii_solid_reference();
    lemma_ascii_color();
    lemma_ascii_coordinate();
    lemma_ascii_normal();
    lemma_ascii_texture_coordinate();
    lemma_ascii_slot();
    lemma_ascii_focus();
    lemma_ascii_lens();
    lemma_ascii_lens_flare();
    lemma_ascii_recognition();
    lemma_ascii_zoom();
    lemma_ascii_rectangle_arena();
}

/// No field name of a built-in schema contains `_`: each is the camel-case form of
/// an ASCII identifier.
pub proof fn lemma_builtin_names_have_no_underscore(name: Seq<char>)
    ensures
        builtin_schema(name) matches Some(fs) ==> forall|i: int|
            0 <= i < fs.len() ==> !(#[trigger] fs[i]).0.contains('_'),
{
    lemma_raw_schema_ascii(name);
    if let Some(raw) = raw_schema(name) {
        reveal(ascii_names);
        let fs = proto_named(raw);
        assert forall|i: int| 0 <= i < fs.len() implies !(#[trigger] fs[i]).0.contains('_') by {
            assert(is_ascii_text(raw[i].0));
            lemma_camel_name_ascii(raw[i].0);
            assert(fs[i].0 == camel_name(raw[i].0));
        }
    }
}

} // verus!
