use brep_kernel::model::Model;

#[test]
fn a_model_lies_below_models() {
    let model = Model::new(String::from("cuboid"));
    assert_eq!(model.name(), "cuboid");
    assert_eq!(model.path(), "models/cuboid");
    assert_eq!(model.src_path(), "models/cuboid/src");
    assert_eq!(model.manifest_path(), "models/cuboid/Cargo.toml");
}

#[test]
fn the_library_of_a_model_is_named_by_the_platform() {
    let model = Model::new(String::from("star"));
    assert_eq!(model.library_path("lib", ".so"), "models/star/target/debug/libstar.so");
    assert_eq!(model.library_path("lib", ".dylib"), "models/star/target/debug/libstar.dylib");
    assert_eq!(model.library_path("", ".dll"), "models/star/target/debug/star.dll");
}

#[test]
fn a_model_without_a_name_is_the_directory_itself() {
    let model = Model::new(String::new());
    assert_eq!(model.name(), "");
    assert_eq!(model.path(), "models/");
    assert_eq!(model.src_path(), "models//src");
}
