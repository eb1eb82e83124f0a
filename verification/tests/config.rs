use rust_raytracer::config::{
    render_config, render_config_from_documents, scene_description, scene_from_documents,
    LightDescription, RealTriple, WorldModel,
};
use rust_raytracer::film::FilterMethod;
use rust_raytracer::geometry::{Point2u, Vector2u};
use rust_raytracer::renderer::Settings;
use rust_raytracer::yaml::{as_i64, get_index, get_key, is_bad_value, parse_yaml, YamlNode};

fn triple(x: &str, y: &str, z: &str) -> RealTriple {
    RealTriple { x: x.to_string(), y: y.to_string(), z: z.to_string() }
}

fn text(s: &str) -> YamlNode {
    YamlNode::Text(s.to_string())
}

const SETTINGS: &str = "
renderer:
  threads: 4
  depth_limit: 8
sampler:
  max_samples: 16
film:
  image_width: 640
  image_height: 480
  bucket_width: 32
  bucket_height: 16
  filter_method: mitchell
  filter_radius: 1.5
  denoise: true
  crop:
    start: [10, 20]
window:
  scale: 2.0
camera:
  position: [0.0, 1.0, 5.0]
  target: [0.0, 0.5, 0.0]
  fov: 45.0
";

#[test]
fn parse_yaml_keeps_nodes_and_entry_order() {
    let docs = parse_yaml("b: 1\na: [x, 2.5, true]\n").unwrap();
    assert_eq!(docs.len(), 1);
    assert_eq!(
        docs[0],
        YamlNode::Hash(vec![
            (text("b"), YamlNode::Integer(1)),
            (
                text("a"),
                YamlNode::Array(vec![
                    text("x"),
                    YamlNode::Real("2.5".to_string()),
                    YamlNode::Boolean(true),
                ]),
            ),
        ])
    );
    assert_eq!(parse_yaml("").unwrap().len(), 0);
    assert_eq!(parse_yaml("a: [1, 2").is_none(), true);
}

#[test]
fn indexing_answers_bad_value_for_missing_entries() {
    let doc = parse_yaml("a: [5, 6]\n").unwrap().remove(0);
    let a = get_key(Some(&doc), "a");
    assert_eq!(as_i64(get_index(a, 1)), Some(6));
    assert!(is_bad_value(get_index(a, 2)));
    assert!(is_bad_value(get_key(Some(&doc), "missing")));
    assert!(is_bad_value(get_key(get_key(Some(&doc), "missing"), "deeper")));
    assert!(!is_bad_value(a));
}

#[test]
fn render_settings_are_read() {
    let c = render_config(SETTINGS).unwrap();
    assert_eq!(c.settings, Settings { thread_count: 4, depth_limit: 8, max_samples: 16 });
    assert_eq!(c.image_size, Vector2u { x: 640, y: 480 });
    assert_eq!(c.bucket_size, Vector2u { x: 32, y: 16 });
    assert_eq!(c.crop_start, Point2u { x: 10, y: 20 });
    // no crop end: the whole image
    assert_eq!(c.crop_end, Point2u { x: 640, y: 480 });
    assert_eq!(c.filter_method, FilterMethod::Mitchell);
    assert_eq!(c.filter_radius, "1.5");
    assert!(c.denoise);
    assert_eq!(c.window_scale, Some("2.0".to_string()));
    assert_eq!(c.camera_position, triple("0.0", "1.0", "5.0"));
    assert_eq!(c.camera_target, triple("0.0", "0.5", "0.0"));
    assert_eq!(c.camera_fov, "45.0");
}

#[test]
fn render_settings_defaults() {
    let text = SETTINGS
        .replace("  denoise: true\n", "")
        .replace("  crop:\n    start: [10, 20]\n", "")
        .replace("window:\n  scale: 2.0\n", "")
        .replace("mitchell", "box");
    let c = render_config(&text).unwrap();
    assert!(!c.denoise);
    assert_eq!(c.crop_start, Point2u { x: 0, y: 0 });
    assert_eq!(c.crop_end, Point2u { x: 640, y: 480 });
    assert_eq!(c.window_scale, None);
    assert_eq!(c.filter_method, FilterMethod::Unfiltered);
}

#[test]
fn render_settings_missing_or_mistyped_fields_fail() {
    assert!(render_config(&SETTINGS.replace("  threads: 4\n", "")).is_none());
    assert!(render_config(&SETTINGS.replace("threads: 4", "threads: four")).is_none());
    assert!(render_config(&SETTINGS.replace("fov: 45.0", "fov: 45")).is_none());
    assert!(render_config(&SETTINGS.replace("start: [10, 20]", "start: [10]")).is_none());
    assert!(render_config(&SETTINGS.replace("filter_method: mitchell\n", "")).is_none());
    assert!(render_config("renderer: [").is_none());
    assert!(render_config("").is_none());
}

#[test]
fn integer_settings_are_cut_to_u32() {
    let c = render_config(&SETTINGS.replace("threads: 4", "threads: 4294967297")).unwrap();
    assert_eq!(c.settings.thread_count, 1);
}

#[test]
fn render_settings_from_documents() {
    let doc = parse_yaml(SETTINGS).unwrap();
    assert_eq!(render_config_from_documents(&doc), render_config(SETTINGS));
    assert_eq!(render_config_from_documents(&vec![]), None);
    assert_eq!(render_config_from_documents(&vec![YamlNode::Null]), None);
}

const SCENE: &str = "
world:
  file: room.obj
  up_axis: y
lights:
  - type: area
    position: [0.0, 2.0, 0.0]
    side_a: [1.0, 0.0, 0.0]
    side_b: [0.0, 0.0, 1.0]
    intensity: [5.0, 5.0, 5.0]
  - type: point
    position: [1.0, 1.0, 1.0]
  - type: distant
    direction: [0.0, -1.0, 0.0]
    intensity: [1.0, 1.0, 0.9]
environment_map: sky.png
";

#[test]
fn scene_is_read_in_file_order() {
    let d = scene_description(SCENE).unwrap();
    assert_eq!(
        d.world,
        Some(WorldModel { file: "room.obj".to_string(), up_axis: "y".to_string() })
    );
    assert_eq!(
        d.lights,
        vec![
            LightDescription::Area {
                position: triple("0.0", "2.0", "0.0"),
                side_a: triple("1.0", "0.0", "0.0"),
                side_b: triple("0.0", "0.0", "1.0"),
                intensity: triple("5.0", "5.0", "5.0"),
            },
            LightDescription::Distant {
                direction: triple("0.0", "-1.0", "0.0"),
                intensity: triple("1.0", "1.0", "0.9"),
            },
        ]
    );
    assert_eq!(d.environment_map, Some("sky.png".to_string()));
}

#[test]
fn scene_parts_are_optional() {
    let d = scene_description("lights: []\n").unwrap();
    assert_eq!(d.world, None);
    assert!(d.lights.is_empty());
    assert_eq!(d.environment_map, None);
    let d = scene_description("world:\n  up_axis: z\n").unwrap();
    assert_eq!(d.world, None);
}

#[test]
fn scene_with_unreadable_entries_fails() {
    assert!(scene_description("world:\n  file: a.obj\n").is_none());
    assert!(scene_description("lights:\n  - position: [0.0, 0.0, 0.0]\n").is_none());
    assert!(scene_description("lights:\n  - type: distant\n    direction: [0.0, 1.0]\n    intensity: [1.0, 1.0, 1.0]\n").is_none());
    assert!(scene_description("lights:\n  - type: area\n").is_none());
    assert!(scene_description("lights: [").is_none());
    assert!(scene_description("").is_none());
}

#[test]
fn scene_from_documents_matches_text() {
    let docs = vec![YamlNode::Hash(vec![(text("environment_map"), text("env.hdr"))])];
    let d = scene_from_documents(&docs).unwrap();
    assert_eq!(d.environment_map, Some("env.hdr".to_string()));
    assert!(scene_from_documents(&vec![]).is_none());
}
