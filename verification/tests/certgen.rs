use certgen::config::{Config, Font, Text};
use certgen::error::RenderError;
use certgen::fonts::{FontMetrics, FontRegistry, LoadedFont};
use certgen::layout::layout_field;
use certgen::measure::measure;
use certgen::render::{render_batch, render_row, validate_fonts};
use certgen::resolve::{resolve, Row};

fn body_metrics() -> FontMetrics {
    FontMetrics {
        units_per_em: 1000,
        advances: vec![
            ('A', 600),
            ('l', 250),
            ('i', 200),
            ('c', 450),
            ('e', 500),
            ('X', 700),
        ],
    }
}

fn body_registry() -> FontRegistry {
    FontRegistry::build(vec![LoadedFont {
        name: "Body".to_string(),
        metrics: body_metrics(),
    }])
    .unwrap()
}

fn name_field() -> Text {
    Text {
        name: "Name".to_string(),
        x: 500,
        y: 500,
        font: "Body".to_string(),
        size: 24,
        conditional: None,
    }
}

fn alice_row() -> Row {
    Row {
        entries: vec![("Name".to_string(), "Alice".to_string())],
    }
}

#[test]
fn resolve_plain_field_is_verbatim() {
    let r = resolve(&name_field(), &alice_row());
    assert_eq!(r.unwrap().unwrap(), "Alice".to_string());
}

#[test]
fn resolve_missing_value_aborts_row() {
    let row = Row {
        entries: vec![("Other".to_string(), "x".to_string())],
    };
    assert!(matches!(
        resolve(&name_field(), &row),
        Err(RenderError::MissingFieldValue)
    ));
}

#[test]
fn resolve_conditional_match_renders_marker() {
    let mut field = name_field();
    field.name = "Attended".to_string();
    field.conditional = Some("yes".to_string());
    let row = Row {
        entries: vec![("Attended".to_string(), "yes".to_string())],
    };
    assert_eq!(resolve(&field, &row).unwrap(), Some("X".to_string()));
}

#[test]
fn resolve_conditional_mismatch_is_omitted() {
    let mut field = name_field();
    field.name = "Attended".to_string();
    field.conditional = Some("yes".to_string());
    let row = Row {
        entries: vec![("Attended".to_string(), "no".to_string())],
    };
    assert_eq!(resolve(&field, &row).unwrap(), None);
}

#[test]
fn measure_single_glyph_exact() {
    // 600 units * 24 pt * 4000 / (1000 upm * 11) = 57_600_000 / 11_000
    let w = measure(&body_metrics(), "A", 24).unwrap();
    assert_eq!(w, 57_600_000 / 11_000);
    assert_eq!(w, 5236);
}

#[test]
fn measure_is_monotonic_in_text() {
    let m = body_metrics();
    let one = measure(&m, "A", 24).unwrap();
    let two = measure(&m, "AA", 24).unwrap();
    assert!(two >= one);
    assert_eq!(two, 10472);
}

#[test]
fn measure_is_deterministic() {
    let m = body_metrics();
    assert_eq!(measure(&m, "Alice", 24), measure(&m, "Alice", 24));
    assert_eq!(measure(&m, "Alice", 24).unwrap(), 17454);
}

#[test]
fn measure_empty_text_is_zero() {
    assert_eq!(measure(&body_metrics(), "", 24).unwrap(), 0);
}

#[test]
fn measure_unknown_character_is_unshapeable() {
    assert_eq!(
        measure(&body_metrics(), "Q", 24),
        Err(RenderError::UnshapeableText)
    );
}

#[test]
fn registry_refuses_duplicate_font_names() {
    let r = FontRegistry::build(vec![
        LoadedFont {
            name: "Body".to_string(),
            metrics: body_metrics(),
        },
        LoadedFont {
            name: "Body".to_string(),
            metrics: body_metrics(),
        },
    ]);
    assert!(matches!(r, Err(RenderError::DuplicateFontName)));
}

#[test]
fn registry_lookup_finds_first_by_name() {
    let reg = body_registry();
    assert!(reg.lookup(&"Body".to_string()).is_some());
    assert!(reg.lookup(&"Header".to_string()).is_none());
}

#[test]
fn layout_field_centers_around_anchor() {
    let reg = body_registry();
    let p = layout_field(&name_field(), &alice_row(), &reg)
        .unwrap()
        .unwrap();
    let w = measure(&body_metrics(), "Alice", 24).unwrap() as i64;
    // The anchor (x = 500/1000 of a 297_000 um page) is the text's center.
    assert_eq!(p.center_x + w / 2, 297_000 * 500 / 1000);
    assert_eq!(p.center_x, 148_500 - 17454 / 2);
    assert_eq!(p.baseline_y, 105_000);
}

#[test]
fn layout_field_unknown_font_aborts() {
    let mut field = name_field();
    field.font = "Header".to_string();
    let r = layout_field(&field, &alice_row(), &body_registry());
    assert!(matches!(r, Err(RenderError::MissingFont)));
}

#[test]
fn validate_fonts_checks_every_field_reference() {
    let reg = body_registry();
    let mut config = Config {
        title: "Cert".to_string(),
        fonts: vec![Font {
            name: "Body".to_string(),
            file: "body.ttf".to_string(),
        }],
        texts: vec![name_field()],
    };
    assert!(validate_fonts(&config, &reg).is_ok());
    config.texts.push(Text {
        font: "Header".to_string(),
        ..name_field()
    });
    assert_eq!(validate_fonts(&config, &reg), Err(RenderError::MissingFont));
}

#[test]
fn render_row_names_output_after_identity_value() {
    let config = Config {
        title: "Cert".to_string(),
        fonts: vec![],
        texts: vec![name_field()],
    };
    let out = render_row(&config, &body_registry(), &alice_row(), &"Name".to_string()).unwrap();
    assert_eq!(out.filename, "Cert-Alice.pdf".to_string());
    assert_eq!(out.instructions.len(), 1);
}

#[test]
fn render_batch_end_to_end_single_row() {
    let config = Config {
        title: "Cert".to_string(),
        fonts: vec![Font {
            name: "Body".to_string(),
            file: "body.ttf".to_string(),
        }],
        texts: vec![name_field()],
    };
    let rows = vec![alice_row()];
    let outs = render_batch(&config, &body_registry(), &rows, &"Name".to_string()).unwrap();
    assert_eq!(outs.len(), 1);
    let p = &outs[0].instructions;
    assert_eq!(p.len(), 1);
    assert_eq!(p[0].text, "Alice".to_string());
    assert_eq!(p[0].font_name, "Body".to_string());
    assert_eq!(p[0].size_pt, 24);
    let w = measure(&body_metrics(), "Alice", 24).unwrap() as i64;
    assert_eq!(p[0].center_x, 297_000 / 2 - w / 2);
    assert_eq!(p[0].baseline_y, 210_000 / 2);
    assert_eq!(outs[0].filename, "Cert-Alice.pdf".to_string());
}

#[test]
fn render_batch_missing_identity_aborts_whole_batch() {
    let config = Config {
        title: "Cert".to_string(),
        fonts: vec![],
        texts: vec![name_field()],
    };
    // The first row is complete; the second lacks the identity field. The
    // batch yields no output at all, not even for the good first row.
    let rows = vec![
        alice_row(),
        Row {
            entries: vec![("Name2".to_string(), "Bob".to_string())],
        },
    ];
    let r = render_batch(&config, &body_registry(), &rows, &"Name".to_string());
    assert!(r.is_err());
}

#[test]
fn render_batch_missing_field_value_reports_row_error() {
    let config = Config {
        title: "Cert".to_string(),
        fonts: vec![],
        texts: vec![name_field()],
    };
    let rows = vec![Row {
        entries: vec![("Ignored".to_string(), "v".to_string())],
    }];
    let r = render_batch(&config, &body_registry(), &rows, &"Ignored".to_string());
    assert_eq!(r.unwrap_err(), RenderError::MissingFieldValue);
}

#[test]
fn conditional_field_skipped_emits_no_instruction() {
    let config = Config {
        title: "Cert".to_string(),
        fonts: vec![],
        texts: vec![
            name_field(),
            Text {
                name: "Attended".to_string(),
                x: 250,
                y: 250,
                font: "Body".to_string(),
                size: 12,
                conditional: Some("yes".to_string()),
            },
        ],
    };
    let mut row = alice_row();
    row.entries.push(("Attended".to_string(), "no".to_string()));
    let out = render_row(&config, &body_registry(), &row, &"Name".to_string()).unwrap();
    assert_eq!(out.instructions.len(), 1);
    assert_eq!(out.instructions[0].text, "Alice".to_string());
}

#[test]
fn conditional_field_match_emits_marker_instruction() {
    let config = Config {
        title: "Cert".to_string(),
        fonts: vec![],
        texts: vec![Text {
            name: "Attended".to_string(),
            x: 250,
            y: 250,
            font: "Body".to_string(),
            size: 12,
            conditional: Some("yes".to_string()),
        }],
    };
    let row = Row {
        entries: vec![
            ("Attended".to_string(), "yes".to_string()),
            ("Name".to_string(), "Alice".to_string()),
        ],
    };
    let out = render_row(&config, &body_registry(), &row, &"Name".to_string()).unwrap();
    assert_eq!(out.instructions.len(), 1);
    assert_eq!(out.instructions[0].text, "X".to_string());
    // 700 units * 12 pt * 4000 / 11_000 = 3054.5 -> 3054
    assert_eq!(out.instructions[0].center_x, 297_000 / 4 - 3054 / 2);
}

#[test]
fn error_descriptions_name_the_stage() {
    assert_eq!(RenderError::MissingFont.describe(), "missing font");
    assert_eq!(RenderError::MissingFieldValue.describe(), "no value found");
    assert_eq!(RenderError::MissingIdentityValue.describe(), "no name");
    assert_eq!(RenderError::DuplicateFontName.describe(), "duplicate font name");
    assert_eq!(RenderError::UnshapeableText.describe(), "unshapeable text");
}
