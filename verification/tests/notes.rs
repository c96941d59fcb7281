//! The note-keeping value types: ids, paths, dates, sizing, configuration.

use pkm::{Date, Error, ImageBuilder, PKMBuilder, Zettel, ZettelBuilder, ZettelContent, ZettelIDBuilder, ZettelReference, path_to_id};
use pkm::image::scaled_dimensions;

#[test]
fn dates_render_zero_padded() {
    let d = Date::new(2024, 1, 2).unwrap();
    assert_eq!(d.ymd(), "2024-01-02");
    let d = Date::new(987, 11, 30).unwrap();
    assert_eq!(d.ymd(), "0987-11-30");
    let d = Date::new(0, 1, 1).unwrap();
    assert_eq!(d.ymd(), "0000-01-01");
}

#[test]
fn dates_out_of_bounds_are_refused() {
    assert!(Date::new(2024, 13, 1).is_none());
    assert!(Date::new(2024, 0, 1).is_none());
    assert!(Date::new(2024, 1, 32).is_none());
    assert!(Date::new(10000, 1, 1).is_none());
}

#[test]
fn titles_become_train_case_lowercase() {
    let id = ZettelIDBuilder::new().title(Some("Hello World")).build().unwrap();
    assert_eq!(id.as_str(), "hello-world");
    assert_eq!(id.filename(), "hello-world.md");
}

#[test]
fn ids_join_title_tags_date_and_hash() {
    let d = Date::new(2024, 1, 2).unwrap();
    let id = ZettelIDBuilder::new()
        .title(Some("Test Note"))
        .tag("meeting")
        .date(&d)
        .with_hash_from("x")
        .build()
        .unwrap();
    // sha1("x") begins 11f6ad8e
    assert_eq!(id.as_str(), "test-note_meeting_2024-01-02_11f6ad8e");
}

#[test]
fn an_empty_id_is_refused() {
    match ZettelIDBuilder::new().build() {
        Err(Error::InvalidZettelID(_)) => {}
        other => panic!("expected an invalid id, got {:?}", other.map(|i| i.filename())),
    }
}

#[test]
fn a_time_hash_alone_makes_an_id() {
    let id = ZettelIDBuilder::new().with_hash().build().unwrap();
    assert_eq!(id.as_str().len(), 8);
}

#[test]
fn reading_an_id_back() {
    let d = Date::new(2024, 1, 2).unwrap();
    let id = ZettelIDBuilder::new()
        .title(Some("Test Note"))
        .tag("meeting")
        .date(&d)
        .with_hash_from("x")
        .build()
        .unwrap();
    assert_eq!(id.title().unwrap(), "test-note");
    assert_eq!(id.hash(), Some("11f6ad8e"));
    // the reader surfaces no tags
    assert!(id.tags().is_empty());
    assert!(!id.has_tag("meeting"));
    assert!(id.tag("meeting").is_none());
    assert!(!id.has_tag_regex("[0-9]{4}-[0-9]{2}-[0-9]{2}"));
    assert!(id.tag_regex("meet.*").is_none());
}

#[test]
fn an_id_without_separator_is_all_hash() {
    let id = ZettelIDBuilder::new().title(Some("solo")).build().unwrap();
    assert_eq!(id.as_str(), "solo");
    assert!(matches!(id.title(), Err(Error::InvalidZettelID(_))));
    assert_eq!(id.hash(), Some("solo"));
}

#[test]
fn path_flavoured_ids_join_with_hyphens() {
    let d = Date::new(2024, 1, 2).unwrap();
    let builder = pkm::zettel_path::ZettelIDBuilder::new(Some("Hello World"))
        .prefix("img")
        .date(&d);
    assert_eq!(builder.get_date().unwrap(), "2024-01-02");
    let id = builder.to_string().unwrap();
    assert_eq!(id, "img-2024-01-02-hello_world");
}

#[test]
fn path_flavoured_ids_take_a_short_hash() {
    let id = pkm::zettel_path::ZettelIDBuilder::new(None)
        .with_hash_from("x")
        .to_string()
        .unwrap();
    assert_eq!(id, "11f6ad8e");
}

#[test]
fn an_empty_path_flavoured_id_is_refused() {
    match pkm::zettel_path::ZettelIDBuilder::new(None).to_string() {
        Err(Error::InvalidZettelID(_)) => {}
        other => panic!("expected an invalid id, got {:?}", other.ok()),
    }
}

#[test]
fn zettel_builder_lays_out_dated_directories() {
    let d = Date::new(2024, 1, 2).unwrap();
    let id = ZettelIDBuilder::new().title(Some("A B")).build().unwrap();
    let b = ZettelBuilder::new("repo/zettels").with_year_month_day(&d).id(&id);
    assert_eq!(b.target_path(), "repo/zettels/2024/01/02/a-b.md");
    assert_eq!(b.template_file(), "default.md");
    let b = ZettelBuilder::new("repo").template(Some("weekly"));
    assert_eq!(b.template_file(), "weekly.md");
}

#[test]
fn zettel_rel_path_strips_the_repository() {
    let z = Zettel::new("repo/zettels/a.md".to_string());
    assert_eq!(z.rel_path("repo").unwrap(), "zettels/a.md");
    assert_eq!(z.rel_path("repo/").unwrap(), "zettels/a.md");
    assert!(matches!(z.rel_path("elsewhere"), Err(Error::NotFound(_))));
}

#[test]
fn zettel_content_appends_on_fresh_lines() {
    let mut c = ZettelContent::new("# Daily".to_string());
    c.append("- one").unwrap();
    c.append("- two").unwrap();
    assert_eq!(c.text, "# Daily\n- one\n- two");
}

#[test]
fn references_render_as_list_lines() {
    let id = ZettelIDBuilder::new().title(Some("Target")).build().unwrap();
    let r = ZettelReference::new(&id, ">");
    assert_eq!(r.render(), "- > [[target]]");
}

#[test]
fn paths_reduce_to_ids() {
    assert_eq!(path_to_id("a/b/note.md"), "note");
    assert_eq!(path_to_id("plain"), "plain");
    assert_eq!(path_to_id("x.md.md"), "x");
}

#[test]
fn image_scaling_caps_width_then_height() {
    // no caps: unchanged
    assert_eq!(scaled_dimensions(800, 600, None, None), (800, 600));
    // width capped; the whole-number ratio stretches the height
    assert_eq!(scaled_dimensions(4000, 1000, Some(1400), None), (1400, 2000));
    // a cap above the size changes nothing
    assert_eq!(scaled_dimensions(800, 600, Some(1400), Some(1000)), (800, 600));
    // both caps; the height cap sees the height the width cap produced
    assert_eq!(scaled_dimensions(4000, 1000, Some(1400), Some(1000)), (2800, 1000));
}

#[test]
fn image_builder_lays_out_dated_directories() {
    let d = Date::new(2024, 1, 2).unwrap();
    let b = ImageBuilder::new("repo/imgs").subdirectory("raw").with_date_directory(&d);
    assert_eq!(b.base_dir(), "repo/imgs/raw/2024/01/02");
    let b = ImageBuilder::new("repo/imgs").max_width(Some(1400)).max_height(Some(1000));
    assert_eq!(b.caps(), (Some(1400), Some(1000)));
    let img = ImageBuilder::new("repo/imgs").target("x.jpg");
    assert_eq!(img.path, "repo/imgs/x.jpg");
    assert_eq!(img.rel_path("repo").unwrap(), "imgs/x.jpg");
}

#[test]
fn imported_images_get_hash_named_files() {
    let img = ImageBuilder::new("repo/imgs").target_hashed();
    assert!(img.path.starts_with("repo/imgs/"));
    assert!(img.path.ends_with(".jpg"));
    // eight hash characters plus the ending
    assert_eq!(img.path.len(), "repo/imgs/".len() + 8 + ".jpg".len());
}

#[test]
fn configuration_requires_every_directory() {
    match PKMBuilder::new("root").build() {
        Err(Error::PKMError(_)) => {}
        other => panic!("expected a configuration error, got {:?}", other.map(|p| p.root)),
    }
    match PKMBuilder::new("root").with_tmpl_dir(Some("tmpl")).build() {
        Err(Error::PKMError(_)) => {}
        other => panic!("expected a configuration error, got {:?}", other.map(|p| p.root)),
    }
}

#[test]
fn configuration_resolves_directories_under_the_root() {
    let pkm = PKMBuilder::new("root")
        .with_tmpl_dir(Some("tmpl"))
        .with_daily_dir(Some("daily"))
        .with_image_dir(Some("imgs"))
        .with_zettel_dir(Some("zettels"))
        .build()
        .unwrap();
    assert_eq!(pkm.root, "root");
    assert_eq!(pkm.tmpl_glob, "root/tmpl/**/*.md");
    assert_eq!(pkm.daily_dir, "root/daily");
    assert_eq!(pkm.image_dir, "root/imgs");
    assert_eq!(pkm.zettel_dir, "root/zettels");
    assert_eq!(pkm.image().base_dir(), "root/imgs");
    assert_eq!(pkm.zettel().target_path(), "root/zettels");
}

#[test]
fn the_daily_note_lands_in_its_month() {
    let pkm = PKMBuilder::new("root")
        .with_tmpl_dir(Some("tmpl"))
        .with_daily_dir(Some("daily"))
        .with_image_dir(Some("imgs"))
        .with_zettel_dir(Some("zettels"))
        .build()
        .unwrap();
    let d = Date::new(2024, 1, 2).unwrap();
    let b = pkm.daily(&d).unwrap();
    assert_eq!(b.target_path(), "root/daily/2024/01/2024-01-02.md");
}
