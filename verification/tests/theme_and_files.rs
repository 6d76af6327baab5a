use magma::files::{
    breadcrumb_segments, category_for_path, category_label, category_order, extension, file_icon, folder_icon,
    format_byte_count, format_timestamp, git_status_css, kind_for_path, kind_label, porcelain_statuses, size_unit,
    unit_label, worst_status, FileCategory, FileKind, GitStatus,
};
use magma::theme::{
    accent_muted, css_color, display_title, effective_palette, feature_title, format_ahead_behind, next_profile,
    palette, profile_label, status_line, stored_base_title, tilde_path, ProfileId, ThemeMode,
};

#[test]
fn theme_positions_round_trip() {
    let all = [
        ThemeMode::Dark,
        ThemeMode::Light,
        ThemeMode::AtomMaterial,
        ThemeMode::Nord,
        ThemeMode::Dracula,
        ThemeMode::SolarizedDark,
        ThemeMode::Monokai,
        ThemeMode::GruvboxDark,
    ];
    for (i, mode) in all.iter().enumerate() {
        assert_eq!(mode.selected_index(), i as u32);
        assert_eq!(ThemeMode::from_index(i as u32), *mode);
    }
    assert_eq!(ThemeMode::from_index(8), ThemeMode::Dark);
    assert_eq!(ThemeMode::from_index(u32::MAX), ThemeMode::Dark);
    assert_eq!(ThemeMode::default_mode(), ThemeMode::Dark);
    assert!(!ThemeMode::Light.prefers_dark_gtk());
    assert!(ThemeMode::Nord.prefers_dark_gtk());
}

#[test]
fn palettes_and_colours() {
    let dark = palette(ThemeMode::Dark);
    assert_eq!(dark.accent, 0x00FF4D4D);
    assert_eq!(dark.text_primary, 0x00F3F3EF);
    assert_eq!(effective_palette(None), dark);
    let light = palette(ThemeMode::Light);
    assert_eq!(light.bg_primary, 0x00F6F2EB);
    assert_eq!(effective_palette(Some(light)), light);
    assert_eq!(accent_muted(&dark), 0x33FF4D4D);
    assert_eq!(css_color(0x00FF4D4D), "#FF4D4D");
    assert_eq!(css_color(0xAA00000F), "#00000F");
}

#[test]
fn profile_titles_round_trip() {
    assert_eq!(profile_label(ProfileId::Focus), "Focus");
    assert_eq!(next_profile(ProfileId::Default), ProfileId::Focus);
    assert_eq!(next_profile(ProfileId::Focus), ProfileId::Compact);
    assert_eq!(next_profile(ProfileId::Compact), ProfileId::Default);
    assert_eq!(display_title("shell", ProfileId::Default), "shell");
    assert_eq!(display_title("shell", ProfileId::Compact), "shell (Compact)");
    assert_eq!(stored_base_title("shell (Compact)", ProfileId::Compact), "shell");
    assert_eq!(stored_base_title("shell (Focus)", ProfileId::Compact), "shell (Focus)");
    assert_eq!(stored_base_title(&display_title("a (b)", ProfileId::Focus), ProfileId::Focus), "a (b)");
}

#[test]
fn small_labels() {
    assert_eq!(format_ahead_behind(0, 0), "");
    assert_eq!(format_ahead_behind(3, 0), "\u{2191}3");
    assert_eq!(format_ahead_behind(0, 12), "\u{2193}12");
    assert_eq!(format_ahead_behind(1, 2), "\u{2191}1 \u{2193}2");
    assert_eq!(tilde_path("/home/ada/src", "/home/ada"), "~/src");
    assert_eq!(tilde_path("/etc", "/home/ada"), "/etc");
    assert_eq!(tilde_path("/etc", ""), "/etc");
    assert_eq!(feature_title("logs"), " LOGS ");
    assert_eq!(status_line(None), "status: ready");
    assert_eq!(status_line(Some("status: exported")), "status: exported");
}

#[test]
fn extensions_as_path_reads_them() {
    assert_eq!(extension("main.rs").as_deref(), Some("rs"));
    assert_eq!(extension("archive.tar.gz").as_deref(), Some("gz"));
    assert_eq!(extension(".bashrc"), None);
    assert_eq!(extension("Makefile"), None);
    assert_eq!(extension("trailing."), Some(String::new()));
    assert_eq!(extension(".."), None);
}

#[test]
fn kinds_and_categories() {
    assert_eq!(kind_for_path("photo.JPG", false), Some(FileKind::Image));
    assert_eq!(kind_for_path("paper.pdf", false), Some(FileKind::Pdf));
    assert_eq!(kind_for_path("memo.docx", false), Some(FileKind::Docx));
    assert_eq!(kind_for_path("slides.pptx", false), Some(FileKind::Office));
    assert_eq!(kind_for_path("lib.rs", true), Some(FileKind::Code));
    assert_eq!(kind_for_path("blob.bin", false), None);
    assert_eq!(category_for_path("photo.png", FileKind::Image), FileCategory::Images);
    assert_eq!(category_for_path("memo.doc", FileKind::Office), FileCategory::Docs);
    assert_eq!(category_for_path("lib.RS", FileKind::Code), FileCategory::Rust);
    assert_eq!(category_for_path("app.tsx", FileKind::Code), FileCategory::JsTs);
    assert_eq!(category_for_path("build.gradle", FileKind::Code), FileCategory::Java);
    assert_eq!(category_for_path("flake.nix", FileKind::Code), FileCategory::Config);
    assert_eq!(category_for_path("run.ps1", FileKind::Code), FileCategory::Shell);
    assert_eq!(category_for_path("notes", FileKind::Code), FileCategory::Other);
    assert_eq!(category_label(FileCategory::Cpp), "c/c++");
    assert_eq!(category_label(FileCategory::JsTs), "js/ts");
    assert_eq!(kind_label(FileKind::Office), "document");
    assert!(category_order(FileCategory::All) < category_order(FileCategory::Other));
}

#[test]
fn file_icons_by_name_then_extension() {
    assert_eq!(file_icon("Cargo.toml"), ("application-x-executable-symbolic", "ft-rust"));
    assert_eq!(file_icon("README.md"), ("accessories-text-editor-symbolic", "ft-doc"));
    assert_eq!(file_icon(".env"), ("dialog-password-symbolic", "ft-secret"));
    assert_eq!(file_icon("main.RS"), ("text-x-generic-symbolic", "ft-rust"));
    assert_eq!(file_icon("pic.jpeg"), ("image-x-generic-symbolic", "ft-image"));
    assert_eq!(file_icon("yarn.lock"), ("application-x-executable-symbolic", "ft-js"));
    assert_eq!(file_icon("poetry.lock"), ("dialog-password-symbolic", "ft-lock"));
    assert_eq!(file_icon("noext"), ("text-x-generic-symbolic", "ft-default"));
    assert_eq!(file_icon("ÉTÉ.PY"), ("text-x-generic-symbolic", "ft-python"));
}

#[test]
fn folder_icons() {
    assert_eq!(folder_icon("SRC"), ("folder-symbolic", "ft-source"));
    assert_eq!(folder_icon("__tests__"), ("folder-symbolic", "ft-test"));
    assert_eq!(folder_icon("node_modules"), ("folder-symbolic", "ft-dep"));
    assert_eq!(folder_icon(".github"), ("folder-symbolic", "ft-git"));
    assert_eq!(folder_icon("misc"), ("folder-symbolic", "ft-folder"));
}

#[test]
fn sizes_and_times() {
    assert_eq!(size_unit(1023), (0, 1));
    assert_eq!(size_unit(1024), (1, 1024));
    assert_eq!(size_unit(5 * 1024 * 1024), (2, 1024 * 1024));
    assert_eq!(size_unit(1 << 40), (3, 1 << 30));
    assert_eq!(unit_label(2), "MB");
    assert_eq!(format_byte_count(512), "512 B");
    assert_eq!(format_timestamp(0), "1970-01-01 00:00");
    assert_eq!(format_timestamp(951782400), "2000-02-29 00:00");
    assert_eq!(format_timestamp(1700000000), "2023-11-14 22:13");
}

#[test]
fn porcelain_lines_to_statuses() {
    let out = porcelain_statuses("M  a.rs\n?? new.txt\nUU c.rs\n M d.rs\nAA e.rs\n!! ignored\nR  x\nab\n");
    assert_eq!(
        out,
        vec![
            ("a.rs".to_string(), GitStatus::Staged),
            ("new.txt".to_string(), GitStatus::Untracked),
            ("c.rs".to_string(), GitStatus::Conflict),
            ("d.rs".to_string(), GitStatus::Modified),
            ("e.rs".to_string(), GitStatus::Conflict),
            ("x".to_string(), GitStatus::Staged),
        ]
    );
}

#[test]
fn folder_status_is_the_heaviest() {
    assert_eq!(worst_status(&[]), None);
    assert_eq!(worst_status(&[GitStatus::Untracked, GitStatus::Staged]), Some(GitStatus::Staged));
    assert_eq!(
        worst_status(&[GitStatus::Modified, GitStatus::Conflict, GitStatus::Staged]),
        Some(GitStatus::Conflict)
    );
    assert_eq!(git_status_css(GitStatus::Untracked), "git-untracked");
}

#[test]
fn breadcrumbs_split_the_shown_path() {
    let segs = breadcrumb_segments("/home/ada/src/app", "/home/ada");
    let texts: Vec<String> = segs.iter().map(|s| s.iter().collect()).collect();
    assert_eq!(texts, vec!["~", "src", "app"]);
    let root: Vec<String> = breadcrumb_segments("/", "/home/ada").iter().map(|s| s.iter().collect()).collect();
    assert!(root.is_empty());
}

use magma::files::kind_icon;

#[test]
fn viewer_kind_icons() {
    assert_eq!(kind_icon(FileKind::Image), "image-x-generic-symbolic");
    assert_eq!(kind_icon(FileKind::Pdf), "application-pdf-symbolic");
    assert_eq!(kind_icon(FileKind::Docx), "x-office-document-symbolic");
    assert_eq!(kind_icon(FileKind::Code), "text-x-script-symbolic");
    assert_eq!(kind_icon(FileKind::Office), "x-office-document-symbolic");
}
