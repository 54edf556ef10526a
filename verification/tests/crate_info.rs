use worldspace::{assets, author, ecs, persist, render, stream, tools};

#[test]
fn lib_crate_loads() {
    assert!(author::crate_info().contains("author"));
    assert!(persist::crate_info().contains("persist"));
    assert!(render::crate_info().contains("render"));
    assert!(stream::crate_info().contains("stream"));
    assert!(tools::crate_info().contains("tools"));
}

#[test]
fn crate_info_names_each_component() {
    assert_eq!(assets::crate_info(), "worldspace-assets v0.1.0");
    assert_eq!(author::crate_info(), "worldspace-author v0.1.0");
    assert_eq!(ecs::crate_info(), "worldspace-ecs v0.1.0");
    assert_eq!(persist::crate_info(), "worldspace-persist v0.1.0");
    assert_eq!(render::crate_info(), "worldspace-render v0.1.0");
    assert_eq!(stream::crate_info(), "worldspace-stream v0.1.0");
    assert_eq!(tools::crate_info(), "worldspace-tools v0.1.0");
}
