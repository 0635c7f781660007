use fj_kernel::export;
use fj_kernel::host::error::Error;
use fj_kernel::host::model::{
    ambiguous_path_error, library_name, package_associated_with_directory, simplified_path, Metadata, Model,
    Package, Platform,
};
use fj_kernel::host::parameters::Parameters;
use fj_kernel::host::watch::{
    on_reload, on_signal, path_triggers_rebuild, triggers_rebuild, DataChange, EventKind, Handoff, ModifyKind,
    Reload, Signal, Step,
};

fn text(s: &str) -> String {
    String::from(s)
}

fn workspace() -> Metadata {
    Metadata {
        packages: vec![
            Package {
                name: text("cuboid"),
                manifest_path: text("/work/models/cuboid/Cargo.toml"),
                crate_dir: text("/work/models/cuboid"),
                canonical_dir: Some(text("/work/models/cuboid")),
            },
            Package {
                name: text("star-shape"),
                manifest_path: text("/work/models/star/Cargo.toml"),
                crate_dir: text("/work/models/star"),
                canonical_dir: Some(text("/work/models/star")),
            },
            Package {
                name: text("elsewhere"),
                manifest_path: text("/other/Cargo.toml"),
                crate_dir: text("/other"),
                canonical_dir: None,
            },
        ],
        workspace_root: text("/work"),
        target_directory: text("/work/target"),
    }
}

#[test]
fn parameters_keep_the_last_value_of_each_key() {
    let mut parameters = Parameters::empty();
    assert_eq!(parameters.get(&text("width")), None);
    assert!(!parameters.contains_key(&text("width")));
    parameters.insert(text("width"), text("3.0"));
    parameters.insert(text("height"), text("2"));
    assert_eq!(parameters.get(&text("width")), Some(&text("3.0")));
    assert_eq!(parameters.get(&text("height")), Some(&text("2")));
    parameters.insert(text("width"), text("4.5"));
    assert_eq!(parameters.get(&text("width")), Some(&text("4.5")));
    assert_eq!(parameters.get(&text("height")), Some(&text("2")));
    assert!(parameters.contains_key(&text("height")));
    assert_eq!(parameters.get(&text("depth")), None);
    parameters.insert(text("depth"), text("1")).insert(text("depth"), text("7")).insert(text("x"), text(""));
    assert_eq!(parameters.get(&text("depth")), Some(&text("7")));
    assert_eq!(parameters.get(&text("x")), Some(&text("")));
}

#[test]
fn library_file_is_named_as_the_platform_names_it() {
    assert_eq!(Platform::Unix.lib_file_name("cuboid"), "libcuboid.so");
    assert_eq!(Platform::MacOs.lib_file_name("cuboid"), "libcuboid.dylib");
    assert_eq!(Platform::Windows.lib_file_name("cuboid"), "cuboid.dll");
}

#[test]
fn library_name_has_underscores_for_dashes() {
    assert_eq!(library_name("star-shape"), "star_shape");
    assert_eq!(library_name("a-b-c-"), "a_b_c_");
    assert_eq!(library_name("plain"), "plain");
}

#[test]
fn package_is_found_by_its_canonical_directory() {
    let metadata = workspace();
    match package_associated_with_directory(&metadata, &text("/work/models/star")) {
        Ok(place) => assert_eq!(place, 1),
        Err(error) => panic!("no package found: {:?}", error),
    }
    match package_associated_with_directory(&metadata, &text("/work/models")) {
        Ok(place) => panic!("unexpected package {}", place),
        Err(Error::AmbiguousPath { dir, possible_paths }) => {
            assert_eq!(dir, "/work/models");
            assert_eq!(possible_paths, vec![text("models/cuboid"), text("models/star"), text("/other")]);
        }
        Err(other) => panic!("unexpected error {:?}", other),
    }
}

#[test]
fn ambiguous_path_error_lists_the_crates_of_the_workspace() {
    let error = ambiguous_path_error(&workspace(), &text("/nowhere"));
    assert_eq!(
        error.message(),
        "It doesn't look like \"/nowhere\" is a crate directory. Did you mean one of models/cuboid, models/star, /other?"
    );
    assert_eq!(simplified_path(text("/a/b"), Some(text("b"))), "b");
    assert_eq!(simplified_path(text("/a/b"), None), "/a/b");
}

#[test]
fn error_messages_name_what_went_wrong() {
    assert_eq!(Error::Compile.message(), "Error compiling model");
    assert_eq!(Error::Io(text("denied")).message(), "I/O error while loading model");
    assert_eq!(Error::LibLoading(text("x")).message(), "Error loading model from dynamic library");
    assert_eq!(Error::Notify(text("x")).message(), "Error watching model for changes");
    assert_eq!(Error::CargoMetadata(text("x")).message(), "Unable to determine the crate's metadata");
    let one = Error::AmbiguousPath { dir: text("d"), possible_paths: vec![text("only")] };
    assert_eq!(one.message(), "It doesn't look like \"d\" is a crate directory. Did you mean one of only?");
    let none = Error::AmbiguousPath { dir: text("d"), possible_paths: vec![] };
    assert_eq!(none.message(), "It doesn't look like \"d\" is a crate directory. Did you mean one of ?");
}

#[test]
fn model_takes_its_paths_from_the_workspace() {
    let metadata = workspace();
    let model = Model::from_metadata(&text("/work/models/star"), &metadata, None, Platform::Unix).unwrap();
    assert_eq!(model.manifest_path, "/work/models/star/Cargo.toml");
    assert_eq!(model.src_path, "/work/models/star/src");
    assert_eq!(model.lib_path, "/work/target/debug/libstar_shape.so");
    let elsewhere =
        Model::from_metadata(&text("/work/models/cuboid"), &metadata, Some(text("/tmp/out")), Platform::Unix)
            .unwrap();
    assert_eq!(elsewhere.lib_path, "/tmp/out/debug/libcuboid.so");
    assert_eq!(
        elsewhere.build_arguments(),
        vec![text("build"), text("--manifest-path"), text("/work/models/cuboid/Cargo.toml")]
    );
    assert!(matches!(
        Model::from_metadata(&text("/other"), &metadata, None, Platform::Unix),
        Err(Error::AmbiguousPath { .. })
    ));
}

#[test]
fn failed_build_is_a_compile_error() {
    assert!(Model::check_build(true).is_ok());
    assert!(matches!(Model::check_build(false), Err(Error::Compile)));
}

#[test]
fn changed_contents_trigger_a_rebuild() {
    let rust = Some(text("rs"));
    assert!(triggers_rebuild(&EventKind::Modify(ModifyKind::Any), &rust));
    assert!(triggers_rebuild(&EventKind::Modify(ModifyKind::Data(DataChange::Any)), &rust));
    assert!(triggers_rebuild(&EventKind::Modify(ModifyKind::Data(DataChange::Content)), &rust));
    assert!(triggers_rebuild(&EventKind::Modify(ModifyKind::Any), &None));
    assert!(!triggers_rebuild(&EventKind::Modify(ModifyKind::Data(DataChange::Size)), &rust));
    assert!(!triggers_rebuild(&EventKind::Modify(ModifyKind::Metadata), &rust));
    assert!(!triggers_rebuild(&EventKind::Modify(ModifyKind::Name), &rust));
    assert!(!triggers_rebuild(&EventKind::Create, &rust));
    assert!(!triggers_rebuild(&EventKind::Remove, &rust));
    assert!(!triggers_rebuild(&EventKind::Access, &rust));
    assert!(!triggers_rebuild(&EventKind::Any, &rust));
}

#[test]
fn scratch_files_of_editors_trigger_nothing() {
    let changed = EventKind::Modify(ModifyKind::Data(DataChange::Content));
    assert!(!triggers_rebuild(&changed, &Some(text("swp"))));
    assert!(!triggers_rebuild(&changed, &Some(text("tmp"))));
    assert!(!triggers_rebuild(&changed, &Some(text("swx"))));
    assert!(triggers_rebuild(&changed, &Some(text("swo"))));
    assert!(!path_triggers_rebuild(&changed, &text("/work/models/star/src/.lib.rs.swp")));
    assert!(path_triggers_rebuild(&changed, &text("/work/models/star/src/lib.rs")));
    assert!(path_triggers_rebuild(&changed, &text("/work/models/star/src/swp")));
    assert!(!path_triggers_rebuild(&EventKind::Create, &text("/work/models/star/src/lib.rs")));
    assert!(path_triggers_rebuild(&changed, &text("/work/models/star/src/notes.swp.rs")));
    assert!(path_triggers_rebuild(&changed, &text("/work/models.tmp/star/src/lib.rs")));
    assert!(path_triggers_rebuild(&changed, &text("/work/models/star/src/Makefile")));
    assert!(!path_triggers_rebuild(&changed, &text("/work/models/star/src/lib.tmp")));
    assert!(!path_triggers_rebuild(&changed, &text("/work/models/star/src/lib.rs.swx")));
    assert!(!path_triggers_rebuild(&EventKind::Remove, &text("/work/models/star/src/lib.swp")));
}

#[test]
fn watcher_reloads_on_a_signal_and_gives_up_when_disconnected() {
    assert_eq!(on_signal(Signal::Received), Step::Reload);
    assert_eq!(on_signal(Signal::Empty), Step::Idle);
    assert_eq!(on_signal(Signal::Disconnected), Step::Abort);
}

#[test]
fn compile_error_keeps_the_previous_shape_and_other_errors_are_fatal() {
    assert!(matches!(on_reload(Ok(17)), Reload::Shape(17)));
    assert!(matches!(on_reload::<i32>(Err(Error::Compile)), Reload::CompileError));
    match on_reload::<i32>(Err(Error::Io(text("gone")))) {
        Reload::Fatal(Error::Io(message)) => assert_eq!(message, "gone"),
        other => panic!("unexpected {:?}", other),
    }
}

#[test]
fn handoff_holds_one_notification_at_most() {
    let mut handoff = Handoff::new();
    assert_eq!(handoff.poll(), Signal::Empty);
    assert!(handoff.notify());
    assert!(!handoff.notify());
    assert_eq!(handoff.poll(), Signal::Received);
    assert_eq!(handoff.poll(), Signal::Empty);
    assert!(handoff.notify());
    assert_eq!(handoff.poll(), Signal::Received);
}

#[test]
fn model_part_is_named_after_the_file() {
    assert_eq!(export::model_part("cube"), "3D/cube.model");
    assert_eq!(export::model_part_of(&text("/tmp/out/cube.3mf")).unwrap(), "3D/cube.model");
    assert_eq!(export::model_part_of(&text("star")).unwrap(), "3D/star.model");
    match export::model_part_of(&text("/")) {
        Err(export::Error::NoFileName(path)) => assert_eq!(path, "/"),
        other => panic!("unexpected {:?}", other),
    }
    assert_eq!(export::model_part_for(&text("x"), Some(text("name"))).unwrap(), "3D/name.model");
}

#[test]
fn export_errors_name_what_went_wrong() {
    assert_eq!(export::Error::NoFileName(text("/")).message(), "Expected path to file, got `/`");
    assert_eq!(export::Error::Io(text("x")).message(), "I/O error");
    assert_eq!(export::Error::Zip(text("x")).message(), "Zip error");
}
