use oni2_assets::effect::EffectDef;
use oni2_assets::fxl::{flash_effect, parse_fxl_content, props_to_settings_block};
use oni2_assets::settings::Number;
use oni2_assets::settings::tokenize_lines;
use std::collections::HashMap;

const SAMPLE: &str = "FX_LIST Punches_Body_Hard\n\
    {\n\
        FX\n\
        {\n\
            SFX\n\
            {\n\
                AudioPackage \"PunchSound\"\n\
            }\n\
        }\n\
        FX\n\
        {\n\
            STRIKE\n\
            {\n\
                Duration 0.35\n\
                ScaleRate 0.6\n\
            }\n\
        }\n\
    }\n";

#[test]
fn tokenizer_sees_expected_keywords() {
    let lines = tokenize_lines(SAMPLE);
    assert!(lines
        .iter()
        .any(|l| l.first().is_some_and(|s| s.eq_ignore_ascii_case("FX_LIST"))));
    assert!(lines
        .iter()
        .any(|l| l.first().is_some_and(|s| s.eq_ignore_ascii_case("AudioPackage"))));
    assert!(lines
        .iter()
        .any(|l| l.first().is_some_and(|s| s.eq_ignore_ascii_case("STRIKE"))));
}

#[test]
fn depth_walker_emits_one_strike_block_per_fx_list() {
    let lines = tokenize_lines(SAMPLE);
    let mut depth = 0i32;
    let mut inner_type: Option<String> = None;
    let mut type_open_depth = 0i32;
    let mut sfx_payload: Option<String> = None;
    let mut strike_props: HashMap<String, Vec<String>> = HashMap::new();
    let mut current_props: HashMap<String, Vec<String>> = HashMap::new();

    for line in lines {
        if line.is_empty() {
            continue;
        }
        if line.len() == 1 {
            match line[0].as_str() {
                "{" => {
                    depth += 1;
                    continue;
                }
                "}" => {
                    depth -= 1;
                    if inner_type.is_some() && depth < type_open_depth {
                        let typ = inner_type.take().unwrap();
                        if typ == "SFX" {
                            if let Some(vals) = current_props.get("AudioPackage") {
                                sfx_payload = vals.first().map(|s| s.trim_matches('"').to_string());
                            }
                        } else if typ == "STRIKE" {
                            strike_props = std::mem::take(&mut current_props);
                        }
                        current_props.clear();
                    }
                    continue;
                }
                _ => {}
            }
        }
        if line.len() == 1 {
            let upper = line[0].to_uppercase();
            if matches!(upper.as_str(), "SFX" | "STRIKE") {
                inner_type = Some(upper);
                type_open_depth = depth + 1;
                current_props.clear();
                continue;
            }
        }
        if inner_type.is_some() && line.len() >= 2 {
            current_props.insert(line[0].clone(), line[1..].to_vec());
        }
    }

    assert_eq!(sfx_payload.as_deref(), Some("PunchSound"));
    assert_eq!(
        strike_props.get("Duration").and_then(|v| v.first()).map(|s| s.as_str()),
        Some("0.35")
    );
    assert_eq!(
        strike_props.get("ScaleRate").and_then(|v| v.first()).map(|s| s.as_str()),
        Some("0.6")
    );
}

#[test]
fn fx_list_entries_collect_sfx_and_strike() {
    let entries = parse_fxl_content(SAMPLE);
    assert_eq!(entries.len(), 1);
    let e = &entries[0];
    assert_eq!(e.name, "Punches_Body_Hard");
    assert_eq!(e.sfx_audio_package.as_deref(), Some("PunchSound"));
    assert!(e.flash.is_none());
    let strike = e.strike.as_ref().expect("strike");
    assert_eq!(strike.entries.len(), 2);
    assert_eq!(strike.entries[0].0, "Duration");
    assert_eq!(strike.entries[0].1, vec!["0.35".to_string()]);
    assert_eq!(strike.entries[1].0, "ScaleRate");
}

#[test]
fn tokenizer_strips_comments_and_keeps_quoted_spaces() {
    let lines = tokenize_lines("a b // gone\n# all gone\n\"x y\" {z}\n\n");
    assert_eq!(lines.len(), 2);
    assert_eq!(lines[0], vec!["a", "b"]);
    assert_eq!(lines[1], vec!["\"x y\"", "{", "z", "}"]);
}

#[test]
fn later_key_replaces_earlier_in_a_block() {
    let src = "fx_list L\n{\nFLASH\n{\nRate 1\nRate 2 3\n}\n}\n";
    let entries = parse_fxl_content(src);
    let flash = entries[0].flash.as_ref().expect("flash");
    assert_eq!(flash.entries.len(), 1);
    assert_eq!(flash.entries[0].1, vec!["2".to_string(), "3".to_string()]);
}

#[test]
fn flash_block_becomes_a_flash_effect() {
    let text = "FX_LIST Glow\n{\nFX\n{\nFLASH\n{\nDuration 0.5\nColor1 1 0.5 0\nRate 2\n}\n}\n}\n";
    let entries = parse_fxl_content(text);
    let props = entries[0].flash.as_ref().unwrap();
    let block = props_to_settings_block(props);
    assert!(matches!(block.get_number("Rate"), Some(Number::Int(2))));
    match flash_effect(&entries[0].name, props) {
        Some(EffectDef::Flash(f)) => {
            assert_eq!(f.name, "Glow");
            assert!(matches!(&f.duration, Some(Number::Float(t)) if t == "0.5"));
            assert_eq!(
                f.color1,
                Some(vec!["1".to_string(), "0.5".to_string(), "0".to_string()])
            );
            assert!(f.fade.is_none());
        }
        _ => panic!("expected a flash"),
    }
}
