//! What the renderer reads from its two YAML files: the scene description
//! (`scene.yaml`) and the render settings (`render_settings.yaml`). A `None`
//! result means the files do not hold what the renderer needs, where it
//! stops. Reals are handed over as their YAML text.
use vstd::prelude::*;

use crate::film::{filter_method_named, FilterMethod};
use crate::geometry::{Point2u, Vector2u};
use crate::renderer::Settings;
use crate::yaml::{
    as_bool, as_i64, as_real, as_text, deref_node, get_index, get_key, is_bad_value, node_at,
    node_bool, node_get, node_i64, node_items, node_real, node_text, parse_yaml, yaml_documents,
    YamlNode,
};

verus! {

/// Three YAML reals, as text: a point, a direction or a colour.
#[derive(Debug, Clone, PartialEq)]
pub struct RealTriple {
    pub x: String,
    pub y: String,
    pub z: String,
}

/// `[x, y, z]` of reals; every one of them must be a real.
pub open spec fn spec_real_triple(node: YamlNode) -> Option<RealTriple> {
    match (
        node_real(node_at(node, 0)),
        node_real(node_at(node, 1)),
        node_real(node_at(node, 2)),
    ) {
        (Some(x), Some(y), Some(z)) => Some(RealTriple { x, y, z }),
        _ => None,
    }
}

fn real_triple(node: Option<&YamlNode>) -> (r: Option<RealTriple>)
    ensures
        r == spec_real_triple(deref_node(node)),
{
    let x = as_real(get_index(node, 0));
    let y = as_real(get_index(node, 1));
    let z = as_real(get_index(node, 2));
    match (x, y, z) {
        (Some(x), Some(y), Some(z)) => Some(RealTriple { x, y, z }),
        _ => None,
    }
}

/// A light of the scene file.
#[derive(Debug, Clone, PartialEq)]
pub enum LightDescription {
    Area { position: RealTriple, side_a: RealTriple, side_b: RealTriple, intensity: RealTriple },
    Distant { direction: RealTriple, intensity: RealTriple },
}

/// One entry of the scene's `lights` list: `None` where it cannot be read
/// (no `type` text, or a field of an area or distant light missing),
/// `Some(None)` for a light type the renderer ignores.
pub open spec fn spec_light(item: YamlNode) -> Option<Option<LightDescription>> {
    match node_text(node_get(item, "type"@)) {
        None => None,
        Some(t) => if t@ == "area"@ {
            match (
                spec_real_triple(node_get(item, "position"@)),
                spec_real_triple(node_get(item, "side_a"@)),
                spec_real_triple(node_get(item, "side_b"@)),
                spec_real_triple(node_get(item, "intensity"@)),
            ) {
                (Some(position), Some(side_a), Some(side_b), Some(intensity)) => Some(
                    Some(LightDescription::Area { position, side_a, side_b, intensity }),
                ),
                _ => None,
            }
        } else if t@ == "distant"@ {
            match (
                spec_real_triple(node_get(item, "direction"@)),
                spec_real_triple(node_get(item, "intensity"@)),
            ) {
                (Some(direction), Some(intensity)) => Some(
                    Some(LightDescription::Distant { direction, intensity }),
                ),
                _ => None,
            }
        } else {
            Some(None)
        },
    }
}

/// The lights of a `lights` list, in list order, skipping ignored types;
/// `None` if an entry cannot be read.
pub open spec fn spec_lights(items: Seq<YamlNode>) -> Option<Seq<LightDescription>>
    decreases items.len(),
{
    if items.len() == 0 {
        Some(Seq::empty())
    } else {
        match (spec_lights(items.drop_last()), spec_light(items.last())) {
            (Some(s), Some(None)) => Some(s),
            (Some(s), Some(Some(d))) => Some(s.push(d)),
            _ => None,
        }
    }
}

proof fn lemma_lights_fail_stays(items: Seq<YamlNode>, j: int, k: int)
    requires
        0 <= j <= k <= items.len(),
        spec_lights(items.take(j)) is None,
    ensures
        spec_lights(items.take(k)) is None,
    decreases k - j,
{
    if j < k {
        assert(items.take(j + 1).drop_last() =~= items.take(j));
        lemma_lights_fail_stays(items, j + 1, k);
    }
}

fn light_description(item: Option<&YamlNode>) -> (r: Option<Option<LightDescription>>)
    ensures
        r == spec_light(deref_node(item)),
{
    let t = match as_text(get_key(item, "type")) {
        Some(t) => t,
        None => return None,
    };
    if t == "area".to_owned() {
        let position = real_triple(get_key(item, "position"));
        let side_a = real_triple(get_key(item, "side_a"));
        let side_b = real_triple(get_key(item, "side_b"));
        let intensity = real_triple(get_key(item, "intensity"));
        match (position, side_a, side_b, intensity) {
            (Some(position), Some(side_a), Some(side_b), Some(intensity)) => Some(
                Some(LightDescription::Area { position, side_a, side_b, intensity }),
            ),
            _ => None,
        }
    } else if t == "distant".to_owned() {
        let direction = real_triple(get_key(item, "direction"));
        let intensity = real_triple(get_key(item, "intensity"));
        match (direction, intensity) {
            (Some(direction), Some(intensity)) => Some(
                Some(LightDescription::Distant { direction, intensity }),
            ),
            _ => None,
        }
    } else {
        Some(None)
    }
}

fn lights_of(list: Option<&YamlNode>) -> (r: Option<Vec<LightDescription>>)
    ensures
        r is Some <==> spec_lights(node_items(deref_node(list))) is Some,
        r matches Some(v) ==> v@ == spec_lights(node_items(deref_node(list)))->0,
{
    let ghost all = node_items(deref_node(list));
    let items: &Vec<YamlNode> = match list {
        Some(YamlNode::Array(items)) => items,
        _ => {
            assert(all =~= Seq::<YamlNode>::empty());
            return Some(Vec::new());
        },
    };
    let mut lights: Vec<LightDescription> = Vec::new();
    let mut i: usize = 0;
    assert(items@.take(0) =~= Seq::<YamlNode>::empty());
    while i < items.len()
        invariant
            all == items@,
            all == node_items(deref_node(list)),
            i <= items.len(),
            spec_lights(items@.take(i as int)) == Some(lights@),
        decreases items.len() - i,
    {
        assert(items@.take(i + 1).drop_last() =~= items@.take(i as int));
        assert(items@.take(i + 1).last() == items@[i as int]);
        match light_description(Some(&items[i])) {
            None => {
                proof {
                    assert(spec_light(items@[i as int]) is None);
                    assert(spec_lights(items@.take(i + 1)) is None);
                    lemma_lights_fail_stays(items@, i + 1, items@.len() as int);
                    assert(items@.take(items@.len() as int) =~= items@);
                }
                return None;
            },
            Some(None) => {},
            Some(Some(d)) => {
                lights.push(d);
            },
        }
        i = i + 1;
    }
    assert(items@.take(items@.len() as int) =~= items@);
    Some(lights)
}

/// The world model of a scene: its OBJ file and which axis is up.
#[derive(Debug, Clone, PartialEq)]
pub struct WorldModel {
    pub file: String,
    pub up_axis: String,
}

/// What `scene.yaml` describes: the world model if one is named, the lights
/// in file order, and the environment map if one is named.
pub struct SceneDescription {
    pub world: Option<WorldModel>,
    pub lights: Vec<LightDescription>,
    pub environment_map: Option<String>,
}

impl View for SceneDescription {
    type V = (Option<WorldModel>, Seq<LightDescription>, Option<String>);

    open spec fn view(&self) -> (Option<WorldModel>, Seq<LightDescription>, Option<String>) {
        (self.world, self.lights@, self.environment_map)
    }
}

/// `world.file`, and then `world.up_axis`, which must be text.
pub open spec fn spec_world(doc: YamlNode) -> Option<Option<WorldModel>> {
    let world = node_get(doc, "world"@);
    match node_text(node_get(world, "file"@)) {
        None => Some(None),
        Some(file) => match node_text(node_get(world, "up_axis"@)) {
            Some(up_axis) => Some(Some(WorldModel { file, up_axis })),
            None => None,
        },
    }
}

/// The scene read from the first document of the file.
pub open spec fn spec_scene_description(docs: Option<Seq<YamlNode>>) -> Option<
    (Option<WorldModel>, Seq<LightDescription>, Option<String>),
> {
    if docs is Some && docs.unwrap().len() > 0 {
        let doc = docs.unwrap()[0];
        match (spec_world(doc), spec_lights(node_items(node_get(doc, "lights"@)))) {
            (Some(world), Some(lights)) => Some(
                (world, lights, node_text(node_get(doc, "environment_map"@))),
            ),
            _ => None,
        }
    } else {
        None
    }
}

/// Reads the scene description from the text of `scene.yaml`.
pub fn scene_description(text: &str) -> (r: Option<SceneDescription>)
    ensures
        r is Some <==> spec_scene_description(yaml_documents(text@)) is Some,
        r matches Some(d) ==> d@ == spec_scene_description(yaml_documents(text@))->0,
{
    match parse_yaml(text) {
        Some(docs) => scene_from_documents(&docs),
        None => None,
    }
}

/// Reads the scene description from the loaded documents of `scene.yaml`.
pub fn scene_from_documents(docs: &Vec<YamlNode>) -> (r: Option<SceneDescription>)
    ensures
        r is Some <==> spec_scene_description(Some(docs@)) is Some,
        r matches Some(d) ==> d@ == spec_scene_description(Some(docs@))->0,
{
    if docs.len() == 0 {
        return None;
    }
    let doc = Some(&docs[0]);
    let world_node = get_key(doc, "world");
    let world = match as_text(get_key(world_node, "file")) {
        None => None,
        Some(file) => match as_text(get_key(world_node, "up_axis")) {
            Some(up_axis) => Some(WorldModel { file, up_axis }),
            None => return None,
        },
    };
    let lights = match lights_of(get_key(doc, "lights")) {
        Some(lights) => lights,
        None => return None,
    };
    let environment_map = as_text(get_key(doc, "environment_map"));
    Some(SceneDescription { world, lights, environment_map })
}

/// The render settings: the render loop's settings, the film (size,
/// bucket size, crop window, filter, denoising), the window scale and the
/// camera. Reals are their YAML text.
#[derive(Debug, Clone, PartialEq)]
pub struct RenderConfig {
    pub settings: Settings,
    pub image_size: Vector2u,
    pub bucket_size: Vector2u,
    pub crop_start: Point2u,
    pub crop_end: Point2u,
    pub filter_method: FilterMethod,
    pub filter_radius: String,
    pub denoise: bool,
    pub window_scale: Option<String>,
    pub camera_position: RealTriple,
    pub camera_target: RealTriple,
    pub camera_fov: String,
}

/// An integer setting, cut to `u32` as the renderer stores it.
pub open spec fn spec_u32(node: YamlNode) -> Option<u32> {
    match node_i64(node) {
        Some(v) => Some(v as u32),
        None => None,
    }
}

/// `[x, y]` of integers, cut to `u32`.
pub open spec fn spec_point_u32(node: YamlNode) -> Option<Point2u> {
    match (spec_u32(node_at(node, 0)), spec_u32(node_at(node, 1))) {
        (Some(x), Some(y)) => Some(Point2u { x, y }),
        _ => None,
    }
}

/// The `renderer` and `sampler` sections.
pub open spec fn spec_settings(doc: YamlNode) -> Option<Settings> {
    let renderer = node_get(doc, "renderer"@);
    match (
        spec_u32(node_get(renderer, "threads"@)),
        spec_u32(node_get(renderer, "depth_limit"@)),
        spec_u32(node_get(node_get(doc, "sampler"@), "max_samples"@)),
    ) {
        (Some(thread_count), Some(depth_limit), Some(max_samples)) => Some(
            Settings { thread_count, depth_limit, max_samples },
        ),
        _ => None,
    }
}

/// The crop window's corners: each defaults (to the image corner and to
/// the image size) where the file has no entry for it.
pub open spec fn spec_crop(film: YamlNode, image_size: Vector2u) -> Option<(Point2u, Point2u)> {
    let crop = node_get(film, "crop"@);
    let start = node_get(crop, "start"@);
    let end = node_get(crop, "end"@);
    let crop_start = if start == YamlNode::BadValue {
        Some(Point2u { x: 0, y: 0 })
    } else {
        spec_point_u32(start)
    };
    let crop_end = if end == YamlNode::BadValue {
        Some(Point2u { x: image_size.x, y: image_size.y })
    } else {
        spec_point_u32(end)
    };
    match (crop_start, crop_end) {
        (Some(s), Some(e)) => Some((s, e)),
        _ => None,
    }
}

/// The settings read from the first document of the file.
pub open spec fn spec_render_config(docs: Option<Seq<YamlNode>>) -> Option<RenderConfig> {
    if docs is Some && docs.unwrap().len() > 0 {
        let doc = docs.unwrap()[0];
        let film = node_get(doc, "film"@);
        let camera = node_get(doc, "camera"@);
        let width = spec_u32(node_get(film, "image_width"@));
        let height = spec_u32(node_get(film, "image_height"@));
        let bucket_width = spec_u32(node_get(film, "bucket_width"@));
        let bucket_height = spec_u32(node_get(film, "bucket_height"@));
        let filter_name = node_text(node_get(film, "filter_method"@));
        let filter_radius = node_real(node_get(film, "filter_radius"@));
        let position = spec_real_triple(node_get(camera, "position"@));
        let target = spec_real_triple(node_get(camera, "target"@));
        let fov = node_real(node_get(camera, "fov"@));
        if spec_settings(doc) is Some && width is Some && height is Some && bucket_width is Some
            && bucket_height is Some && spec_crop(
            film,
            Vector2u { x: width.unwrap(), y: height.unwrap() },
        ) is Some && filter_name is Some && filter_radius is Some && position is Some
            && target is Some && fov is Some {
            let image_size = Vector2u { x: width.unwrap(), y: height.unwrap() };
            let crop = spec_crop(film, image_size).unwrap();
            Some(
                RenderConfig {
                    settings: spec_settings(doc).unwrap(),
                    image_size,
                    bucket_size: Vector2u { x: bucket_width.unwrap(), y: bucket_height.unwrap() },
                    crop_start: crop.0,
                    crop_end: crop.1,
                    filter_method: filter_method_named(filter_name.unwrap()@),
                    filter_radius: filter_radius.unwrap(),
                    denoise: match node_bool(node_get(film, "denoise"@)) {
                        Some(b) => b,
                        None => false,
                    },
                    window_scale: node_real(node_get(node_get(doc, "window"@), "scale"@)),
                    camera_position: position.unwrap(),
                    camera_target: target.unwrap(),
                    camera_fov: fov.unwrap(),
                },
            )
        } else {
            None
        }
    } else {
        None
    }
}

fn as_u32(node: Option<&YamlNode>) -> (r: Option<u32>)
    ensures
        r == spec_u32(deref_node(node)),
{
    match as_i64(node) {
        Some(v) => Some(v as u32),
        None => None,
    }
}

fn point_u32(node: Option<&YamlNode>) -> (r: Option<Point2u>)
    ensures
        r == spec_point_u32(deref_node(node)),
{
    match (as_u32(get_index(node, 0)), as_u32(get_index(node, 1))) {
        (Some(x), Some(y)) => Some(Point2u { x, y }),
        _ => None,
    }
}

fn settings_of(doc: Option<&YamlNode>) -> (r: Option<Settings>)
    ensures
        r == spec_settings(deref_node(doc)),
{
    let renderer = get_key(doc, "renderer");
    let threads = as_u32(get_key(renderer, "threads"));
    let depth = as_u32(get_key(renderer, "depth_limit"));
    let samples = as_u32(get_key(get_key(doc, "sampler"), "max_samples"));
    match (threads, depth, samples) {
        (Some(thread_count), Some(depth_limit), Some(max_samples)) => Some(
            Settings { thread_count, depth_limit, max_samples },
        ),
        _ => None,
    }
}

fn crop_of(film: Option<&YamlNode>, image_size: Vector2u) -> (r: Option<(Point2u, Point2u)>)
    ensures
        r == spec_crop(deref_node(film), image_size),
{
    let crop = get_key(film, "crop");
    let start = get_key(crop, "start");
    let end = get_key(crop, "end");
    let crop_start = if is_bad_value(start) {
        Some(Point2u { x: 0, y: 0 })
    } else {
        point_u32(start)
    };
    let crop_end = if is_bad_value(end) {
        Some(Point2u { x: image_size.x, y: image_size.y })
    } else {
        point_u32(end)
    };
    match (crop_start, crop_end) {
        (Some(s), Some(e)) => Some((s, e)),
        _ => None,
    }
}

/// Reads the render settings from the text of `render_settings.yaml`.
pub fn render_config(text: &str) -> (r: Option<RenderConfig>)
    ensures
        r == spec_render_config(yaml_documents(text@)),
{
    match parse_yaml(text) {
        Some(docs) => render_config_from_documents(&docs),
        None => None,
    }
}

/// Reads the render settings from the loaded documents of
/// `render_settings.yaml`.
pub fn render_config_from_documents(docs: &Vec<YamlNode>) -> (r: Option<RenderConfig>)
    ensures
        r == spec_render_config(Some(docs@)),
{
    if docs.len() == 0 {
        return None;
    }
    let doc = Some(&docs[0]);
    let film = get_key(doc, "film");
    let camera = get_key(doc, "camera");
    let settings = match settings_of(doc) {
        Some(s) => s,
        None => return None,
    };
    let width = match as_u32(get_key(film, "image_width")) {
        Some(w) => w,
        None => return None,
    };
    let height = match as_u32(get_key(film, "image_height")) {
        Some(h) => h,
        None => return None,
    };
    let bucket_width = match as_u32(get_key(film, "bucket_width")) {
        Some(w) => w,
        None => return None,
    };
    let bucket_height = match as_u32(get_key(film, "bucket_height")) {
        Some(h) => h,
        None => return None,
    };
    let image_size = Vector2u { x: width, y: height };
    let (crop_start, crop_end) = match crop_of(film, image_size) {
        Some(c) => c,
        None => return None,
    };
    let filter_name = match as_text(get_key(film, "filter_method")) {
        Some(n) => n,
        None => return None,
    };
    let filter_method = match FilterMethod::from_str(filter_name.as_str()) {
        Some(m) => m,
        None => return None,
    };
    let filter_radius = match as_real(get_key(film, "filter_radius")) {
        Some(r) => r,
        None => return None,
    };
    let camera_position = match real_triple(get_key(camera, "position")) {
        Some(p) => p,
        None => return None,
    };
    let camera_target = match real_triple(get_key(camera, "target")) {
        Some(t) => t,
        None => return None,
    };
    let camera_fov = match as_real(get_key(camera, "fov")) {
        Some(f) => f,
        None => return None,
    };
    let denoise = match as_bool(get_key(film, "denoise")) {
        Some(b) => b,
        None => false,
    };
    let window_scale = as_real(get_key(get_key(doc, "window"), "scale"));
    Some(
        RenderConfig {
            settings,
            image_size,
            bucket_size: Vector2u { x: bucket_width, y: bucket_height },
            crop_start,
            crop_end,
            filter_method,
            filter_radius,
            denoise,
            window_scale,
            camera_position,
            camera_target,
            camera_fov,
        },
    )
}

/// The film section of the first document of the settings file.
pub open spec fn film_section(docs: Seq<YamlNode>) -> YamlNode {
    node_get(docs[0], "film"@)
}

/// A crop corner that the settings file gives as `[a, b]` is the corner
/// read, `(a, b)` cut to `u32`; only a corner that the file leaves out
/// takes its default: the image corner for the start, the image size
/// for the end.
pub proof fn lemma_crop_corners_read(docs: Seq<YamlNode>)
    requires
        spec_render_config(Some(docs)) is Some,
    ensures
        ({
            let c = spec_render_config(Some(docs)).unwrap();
            let film = film_section(docs);
            let start = node_get(node_get(film, "crop"@), "start"@);
            let end = node_get(node_get(film, "crop"@), "end"@);
            &&& c.image_size.x == node_i64(node_get(film, "image_width"@)).unwrap() as u32
            &&& c.image_size.y == node_i64(node_get(film, "image_height"@)).unwrap() as u32
            &&& start == YamlNode::BadValue ==> c.crop_start == Point2u { x: 0, y: 0 }
            &&& start != YamlNode::BadValue ==> node_i64(node_at(start, 0)) is Some && node_i64(
                node_at(start, 1),
            ) is Some && c.crop_start.x == node_i64(node_at(start, 0)).unwrap() as u32
                && c.crop_start.y == node_i64(node_at(start, 1)).unwrap() as u32
            &&& end == YamlNode::BadValue ==> c.crop_end.x == c.image_size.x && c.crop_end.y
                == c.image_size.y
            &&& end != YamlNode::BadValue ==> node_i64(node_at(end, 0)) is Some && node_i64(
                node_at(end, 1),
            ) is Some && c.crop_end.x == node_i64(node_at(end, 0)).unwrap() as u32
                && c.crop_end.y == node_i64(node_at(end, 1)).unwrap() as u32
        }),
{
}

/// Denoising is on exactly when the settings file sets `film.denoise` to
/// the boolean `true`: a `false` there turns it off, and so does an
/// absent or non-boolean entry.
pub proof fn lemma_denoise_read(docs: Seq<YamlNode>)
    requires
        spec_render_config(Some(docs)) is Some,
    ensures
        spec_render_config(Some(docs)).unwrap().denoise <==> node_get(
            film_section(docs),
            "denoise"@,
        ) == YamlNode::Boolean(true),
{
}

/// The filter is the one that `film.filter_method` names: "gaussian"
/// gives the Gaussian filter, "mitchell" the Mitchell filter, and any
/// other text no filtering. A settings file without a filter name is not
/// read.
pub proof fn lemma_filter_read(docs: Seq<YamlNode>)
    requires
        docs.len() > 0,
    ensures
        node_text(node_get(film_section(docs), "filter_method"@)) is None ==> spec_render_config(
            Some(docs),
        ) is None,
        spec_render_config(Some(docs)) is Some ==> ({
            let name = node_text(node_get(film_section(docs), "filter_method"@)).unwrap()@;
            let m = spec_render_config(Some(docs)).unwrap().filter_method;
            &&& name == "gaussian"@ ==> m == FilterMethod::Gaussian
            &&& name == "mitchell"@ ==> m == FilterMethod::Mitchell
            &&& (name != "gaussian"@ && name != "mitchell"@) ==> m == FilterMethod::Unfiltered
        }),
{
    reveal_strlit("gaussian");
    reveal_strlit("mitchell");
    assert("gaussian"@ != "mitchell"@) by {
        assert("gaussian"@[0] != "mitchell"@[0]);
    }
}

} // verus!
