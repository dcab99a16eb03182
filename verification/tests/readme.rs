//! The README's example config is one Footman takes without complaint.
//!
//! The example is repeated here as the README shows it.

use footman::{Action, Config, Document, Loaded, RawBinding, Spanned};

/// The config the README shows, as it shows it.
const README_EXAMPLE: &str = r#"[hyper]
key = "CapsLock"        # any key name
tap = "none"            # none | escape

[general]
autostart = false

[[binding]]
chord  = "C"
action = { type = "app", id = "aumid:Chrome" }

[[binding]]
chord  = "Shift+C"
action = { type = "app", id = 'path:C:\Program Files\Unity Hub\Unity Hub.exe' }

[[binding]]
chord  = "1"
action = { type = "desktop", index = 1 }

[[binding]]
chord  = "G"
action = { type = "open", target = "https://github.com" }

[[binding]]
chord  = "P"
action = { type = "run", command = "pnpm dev", show_window = false }
"#;

fn example() -> String {
    README_EXAMPLE.to_string()
}

/// An Action table as the TOML reader hands it over.
fn action(value: &toml::Value) -> Result<Action, String> {
    let text = |field: &str| {
        value
            .get(field)
            .and_then(|v| v.as_str())
            .map(str::to_string)
            .ok_or(format!("missing field `{field}`"))
    };
    match value.get("type").and_then(|v| v.as_str()) {
        Some("app") => text("id").map(|id| Action::App { id }),
        Some("open") => text("target").map(|target| Action::Open { target }),
        Some("run") => text("command").map(|command| Action::Run {
            command,
            show_window: value
                .get("show_window")
                .and_then(|v| v.as_bool())
                .unwrap_or(false),
        }),
        Some("desktop") => value
            .get("index")
            .and_then(|v| v.as_integer())
            .map(|index| Action::Desktop {
                index: index as usize,
            })
            .ok_or("missing field `index`".to_string()),
        Some(other) => Err(format!("unknown variant `{other}`")),
        None => Err("missing field `type`".to_string()),
    }
}

/// Reads a config's text the way the TOML reader does.
fn load(text: &str) -> Loaded {
    let table: toml::Table = text.parse().expect("the config is TOML");
    let hyper = table.get("hyper").and_then(|v| v.as_table());
    let hyper_key = hyper
        .and_then(|h| h.get("key"))
        .and_then(|v| v.as_str())
        .map(|key| Spanned {
            text: key.to_string(),
            start: text.find(&format!("\"{key}\"")).unwrap(),
        });
    let hyper_tap = hyper
        .and_then(|h| h.get("tap"))
        .and_then(|v| v.as_str())
        .map(str::to_string);
    let autostart = table
        .get("general")
        .and_then(|g| g.get("autostart"))
        .and_then(|v| v.as_bool())
        .unwrap_or(false);
    let bindings = table
        .get("binding")
        .and_then(|b| b.as_array())
        .map(|rows| {
            rows.iter()
                .map(|row| RawBinding {
                    chord: row["chord"].as_str().unwrap().to_string(),
                    action: action(&row["action"]),
                })
                .collect()
        })
        .unwrap_or_default();

    Config::from_document(
        text,
        Document {
            hyper_key,
            hyper_tap,
            autostart,
            bindings,
        },
    )
    .expect("the config loads")
}

#[test]
fn the_readme_config_loads_without_complaint() {
    let loaded = load(&example());

    assert!(
        loaded.warnings.is_empty(),
        "the README shows a config Footman complains about: {:?}",
        loaded.warnings
    );
}

#[test]
fn every_binding_the_readme_shows_survives_loading() {
    let example = example();
    let shown = example.matches("[[binding]]").count();

    let loaded = load(&example);

    assert!(shown > 0, "the README shows no Bindings at all");
    assert_eq!(loaded.config.bindings.sorted().len(), shown);
}

#[test]
fn the_tap_actions_the_readme_offers_are_the_ones_that_exist() {
    for tap in ["none", "escape"] {
        let loaded = load(&format!("[hyper]\ntap = \"{tap}\"\n"));

        assert!(
            loaded.warnings.is_empty(),
            "the README offers tap = {tap:?}, which Footman does not take: {:?}",
            loaded.warnings
        );
    }
}
