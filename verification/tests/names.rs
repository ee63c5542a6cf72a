use learn_opengl::names::{decimal_string, texture_file_path, uniform_array_field};

#[test]
fn decimal_strings() {
    assert_eq!(decimal_string(0), "0");
    assert_eq!(decimal_string(7), "7");
    assert_eq!(decimal_string(10), "10");
    assert_eq!(decimal_string(1234), "1234");
    assert_eq!(decimal_string(u64::MAX), u64::MAX.to_string());
}

#[test]
fn point_light_uniform_names() {
    assert_eq!(uniform_array_field("pointLights", 2, "diffuse"), "pointLights[2].diffuse");
    assert_eq!(uniform_array_field("lights", 0, "Position"), "lights[0].Position");
    assert_eq!(uniform_array_field("lights", 12, "Color"), "lights[12].Color");
    for i in 0..4u64 {
        assert_eq!(
            uniform_array_field("pointLights", i, "quadratic"),
            format!("pointLights[{}].quadratic", i)
        );
    }
}

#[test]
fn texture_files_live_in_model_directory() {
    assert_eq!(
        texture_file_path("resources/objects/rock", "rock.png"),
        "resources/objects/rock/rock.png"
    );
    assert_eq!(texture_file_path("", "a.png"), "/a.png");
}
