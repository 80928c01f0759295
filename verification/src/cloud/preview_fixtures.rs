//! What a client that is never signed in is checked with: models, tasks and
//! files that no service knows.

use crate::cloud::configuration::{SnapshotView, TaskInputSnapshot};
use crate::cloud::preview_validation::Fixtures;
use crate::generation_templates::{ReferenceView, TemplateReference};
use crate::json::{models, Json, JsonModel};
use crate::paths::{join_path, joined_path};
use crate::text::{cat, views};
use vstd::prelude::*;
use vstd::string::*;

verus! {

pub open spec fn word(s: Seq<char>) -> JsonModel {
    JsonModel::Text(s)
}

pub open spec fn number(n: u64) -> JsonModel {
    JsonModel::Number(crate::json::NumberModel::Unsigned(n))
}

/// A parameter of two values, the first of them its default. A turned one
/// lists them the other way round.
pub open spec fn option_model(first: JsonModel, second: JsonModel, turned: bool) -> JsonModel {
    JsonModel::Object(
        seq![
            (
                "values"@,
                JsonModel::Array(
                    if turned {
                        seq![second, first]
                    } else {
                        seq![first, second]
                    },
                ),
            ),
            ("default"@, first),
        ],
    )
}

fn make_option(first: Json, second: Json, turned: bool) -> (r: Json)
    ensures
        r@ == option_model(first@, second@, turned),
{
    let ghost a = first@;
    let ghost b = second@;
    let default: Json = first.copy();
    let values: Json = if turned {
        let list: Vec<Json> = vec![second, first];
        proof {
            assert(models(list@) =~= seq![b, a]);
        }
        Json::from_list(list)
    } else {
        let list: Vec<Json> = vec![first, second];
        proof {
            assert(models(list@) =~= seq![a, b]);
        }
        Json::from_list(list)
    };
    let r: Json = Json::from_members(
        vec![("values".to_owned(), values), ("default".to_owned(), default)],
    );
    proof {
        assert(r@->Object_0 =~= option_model(a, b, turned)->Object_0);
    }
    r
}

/// A model of a name and a kind, with its parameters.
pub open spec fn model_of(
    id: Seq<char>,
    name: Seq<char>,
    kind: Seq<char>,
    parameters: JsonModel,
) -> JsonModel {
    JsonModel::Object(
        seq![
            ("id"@, word(id)),
            ("name"@, word(name)),
            ("kind"@, word(kind)),
            ("parameters"@, parameters),
        ],
    )
}

fn make_model(id: &str, name: &str, kind: &str, parameters: Json) -> (r: Json)
    ensures
        r@ == model_of(id@, name@, kind@, parameters@),
{
    let ghost p = parameters@;
    let r: Json = Json::from_members(
        vec![
            ("id".to_owned(), Json::from_text(id)),
            ("name".to_owned(), Json::from_text(name)),
            ("kind".to_owned(), Json::from_text(kind)),
            ("parameters".to_owned(), parameters),
        ],
    );
    proof {
        assert(r@->Object_0 =~= model_of(id@, name@, kind@, p)->Object_0);
    }
    r
}

/// A model of pictures.
pub open spec fn image_model(id: Seq<char>, turned: bool) -> JsonModel {
    model_of(
        id,
        id,
        "image"@,
        JsonModel::Object(
            seq![
                ("size"@, option_model(word("1024x1024"@), word("1536x1024"@), turned)),
                ("quality"@, option_model(word("standard"@), word("high"@), turned)),
                ("quantity"@, option_model(number(1), number(2), turned)),
            ],
        ),
    )
}

fn make_image_model(id: &str, turned: bool) -> (r: Json)
    ensures
        r@ == image_model(id@, turned),
{
    let parameters: Json = Json::from_members(
        vec![
            (
                "size".to_owned(),
                make_option(Json::from_text("1024x1024"), Json::from_text("1536x1024"), turned),
            ),
            (
                "quality".to_owned(),
                make_option(Json::from_text("standard"), Json::from_text("high"), turned),
            ),
            ("quantity".to_owned(), make_option(Json::from_u64(1), Json::from_u64(2), turned)),
        ],
    );
    proof {
        assert(parameters@->Object_0 =~= seq![
            ("size"@, option_model(word("1024x1024"@), word("1536x1024"@), turned)),
            ("quality"@, option_model(word("standard"@), word("high"@), turned)),
            ("quantity"@, option_model(number(1), number(2), turned)),
        ]);
    }
    make_model(id, id, "image", parameters)
}

/// The parameters of the model of videos.
pub open spec fn movie_options(turned: bool) -> Seq<(Seq<char>, JsonModel)> {
    seq![
        ("resolution"@, option_model(word("720p"@), word("1080p"@), turned)),
        ("duration"@, option_model(number(5), number(10), turned)),
        ("aspect_ratio"@, option_model(word("16:9"@), word("9:16"@), turned)),
        ("generate_audio"@, JsonModel::Object(seq![("default"@, JsonModel::Bool(true))])),
        ("quantity"@, option_model(number(1), number(2), turned)),
    ]
}

/// A model of videos.
pub open spec fn video_model(turned: bool) -> JsonModel {
    model_of(
        "offline-video"@,
        "Offline video"@,
        "video"@,
        JsonModel::Object(movie_options(turned)),
    )
}

fn make_video_model(turned: bool) -> (r: Json)
    ensures
        r@ == video_model(turned),
{
    let sound: Json = Json::from_members(vec![("default".to_owned(), Json::from_bool(true))]);
    proof {
        assert(sound@->Object_0 =~= seq![("default"@, JsonModel::Bool(true))]);
    }
    let parameters: Json = Json::from_members(
        vec![
            (
                "resolution".to_owned(),
                make_option(Json::from_text("720p"), Json::from_text("1080p"), turned),
            ),
            ("duration".to_owned(), make_option(Json::from_u64(5), Json::from_u64(10), turned)),
            (
                "aspect_ratio".to_owned(),
                make_option(Json::from_text("16:9"), Json::from_text("9:16"), turned),
            ),
            ("generate_audio".to_owned(), sound),
            ("quantity".to_owned(), make_option(Json::from_u64(1), Json::from_u64(2), turned)),
        ],
    );
    proof {
        assert(parameters@->Object_0 =~= movie_options(turned));
    }
    make_model("offline-video", "Offline video", "video", parameters)
}

/// The parameters of a picture.
pub open spec fn image_parameters() -> JsonModel {
    JsonModel::Object(
        seq![("size"@, word("1536x1024"@)), ("quality"@, word("high"@)), ("quantity"@, number(2))],
    )
}

fn make_image_parameters() -> (r: Json)
    ensures
        r@ == image_parameters(),
{
    let r: Json = Json::from_members(
        vec![
            ("size".to_owned(), Json::from_text("1536x1024")),
            ("quality".to_owned(), Json::from_text("high")),
            ("quantity".to_owned(), Json::from_u64(2)),
        ],
    );
    proof {
        assert(r@->Object_0 =~= image_parameters()->Object_0);
    }
    r
}

/// The parameters of a video.
pub open spec fn video_parameters(
    resolution: Seq<char>,
    duration: u64,
    ratio: Seq<char>,
    sound: bool,
    quantity: u64,
) -> JsonModel {
    JsonModel::Object(
        seq![
            ("resolution"@, word(resolution)),
            ("duration"@, number(duration)),
            ("aspect_ratio"@, word(ratio)),
            ("generate_audio"@, JsonModel::Bool(sound)),
            ("quantity"@, number(quantity)),
        ],
    )
}

fn make_video_parameters(
    resolution: &str,
    duration: u64,
    ratio: &str,
    sound: bool,
    quantity: u64,
) -> (r: Json)
    ensures
        r@ == video_parameters(resolution@, duration, ratio@, sound, quantity),
{
    let r: Json = Json::from_members(
        vec![
            ("resolution".to_owned(), Json::from_text(resolution)),
            ("duration".to_owned(), Json::from_u64(duration)),
            ("aspect_ratio".to_owned(), Json::from_text(ratio)),
            ("generate_audio".to_owned(), Json::from_bool(sound)),
            ("quantity".to_owned(), Json::from_u64(quantity)),
        ],
    );
    proof {
        assert(r@->Object_0 =~= video_parameters(
            resolution@,
            duration,
            ratio@,
            sound,
            quantity,
        )->Object_0);
    }
    r
}

/// A task of a model, without references.
pub open spec fn task_of(mode: i32, model: Seq<char>, parameters: JsonModel) -> SnapshotView {
    SnapshotView {
        mode,
        prompt: "Offline recovery "@ + model,
        model_id: model,
        parameters,
        references: Seq::empty(),
    }
}

fn make_task(mode: i32, model: &str, parameters: Json) -> (r: TaskInputSnapshot)
    ensures
        r@ == task_of(mode, model@, parameters@),
{
    let r: TaskInputSnapshot = TaskInputSnapshot {
        mode,
        prompt: cat("Offline recovery ", model),
        model_id: model.to_owned(),
        parameters,
        references: Vec::new(),
    };
    proof {
        assert(r@.references =~= Seq::empty());
    }
    r
}

/// The name of a reference.
pub open spec fn reference_name(digit: Seq<char>) -> Seq<char> {
    "reference-"@ + digit
}

/// A reference that is not there.
pub open spec fn absent_reference(folder: Seq<char>, digit: Seq<char>) -> ReferenceView {
    ReferenceView {
        path: joined_path(folder, digit + ".png"@),
        name: reference_name(digit),
        kind: "image"@,
        client_id: reference_name(digit),
        source_id: ""@,
    }
}

fn make_reference(folder: &str, digit: &str) -> (r: TemplateReference)
    ensures
        r@ == absent_reference(folder@, digit@),
{
    TemplateReference {
        path: join_path(folder, cat(digit, ".png").as_str()),
        name: cat("reference-", digit),
        kind: "image".to_owned(),
        client_id: cat("reference-", digit),
        source_id: "".to_owned(),
    }
}

/// A task whose references are not there.
pub open spec fn bare_task(folder: Seq<char>) -> SnapshotView {
    SnapshotView {
        mode: 0,
        prompt: "@[图片1] @[图片2] @[图片3]"@,
        model_id: "offline-image-a"@,
        parameters: image_parameters(),
        references: seq![
            absent_reference(folder, "1"@),
            absent_reference(folder, "2"@),
            absent_reference(folder, "3"@),
        ],
    }
}

fn make_bare_task(folder: &str) -> (r: TaskInputSnapshot)
    ensures
        r@ == bare_task(folder@),
{
    let r: TaskInputSnapshot = TaskInputSnapshot {
        mode: 0,
        prompt: "@[图片1] @[图片2] @[图片3]".to_owned(),
        model_id: "offline-image-a".to_owned(),
        parameters: make_image_parameters(),
        references: vec![
            make_reference(folder, "1"),
            make_reference(folder, "2"),
            make_reference(folder, "3"),
        ],
    };
    proof {
        assert(r@.references =~= bare_task(folder@).references);
    }
    r
}

/// A file of the personal library that is not on this machine.
pub open spec fn distant_item() -> JsonModel {
    JsonModel::Object(
        seq![
            ("id"@, word("offline-personal"@)),
            ("name"@, word("Offline item"@)),
            ("kind"@, word("image"@)),
            ("available"@, JsonModel::Bool(false)),
            ("trashed"@, JsonModel::Bool(false)),
        ],
    )
}

fn make_distant_item() -> (r: Json)
    ensures
        r@ == distant_item(),
{
    let r: Json = Json::from_members(
        vec![
            ("id".to_owned(), Json::from_text("offline-personal")),
            ("name".to_owned(), Json::from_text("Offline item")),
            ("kind".to_owned(), Json::from_text("image")),
            ("available".to_owned(), Json::from_bool(false)),
            ("trashed".to_owned(), Json::from_bool(false)),
        ],
    );
    proof {
        assert(r@->Object_0 =~= distant_item()->Object_0);
    }
    r
}

/// A file of the personal library that can be picked.
pub open spec fn picked_item(digit: Seq<char>, path: Seq<char>) -> JsonModel {
    JsonModel::Object(
        seq![
            ("id"@, word("picker-"@ + digit)),
            ("name"@, word("Picker "@ + digit)),
            ("kind"@, word("image"@)),
            ("path"@, word(path)),
            ("available"@, JsonModel::Bool(true)),
            ("trashed"@, JsonModel::Bool(false)),
        ],
    )
}

fn make_picked_item(digit: &str, path: &str) -> (r: Json)
    ensures
        r@ == picked_item(digit@, path@),
{
    let r: Json = Json::from_members(
        vec![
            ("id".to_owned(), Json::from_text(cat("picker-", digit).as_str())),
            ("name".to_owned(), Json::from_text(cat("Picker ", digit).as_str())),
            ("kind".to_owned(), Json::from_text("image")),
            ("path".to_owned(), Json::from_text(path)),
            ("available".to_owned(), Json::from_bool(true)),
            ("trashed".to_owned(), Json::from_bool(false)),
        ],
    );
    proof {
        assert(r@->Object_0 =~= picked_item(digit@, path@)->Object_0);
    }
    r
}

/// What a client is checked with: `absent` is a folder that is not there,
/// `first` and `second` are pictures that are.
pub fn make_fixtures(absent: &str, first: &str, second: &str) -> (r: Fixtures)
    ensures
        models(r.models@) == seq![
            image_model("offline-image-a"@, false),
            image_model("offline-image-b"@, false),
            video_model(false),
        ],
        models(r.reordered@) == seq![
            video_model(true),
            image_model("offline-image-b"@, true),
            image_model("offline-image-a"@, true),
        ],
        r.image@ == image_parameters(),
        r.video@ == video_parameters("1080p"@, 10, "9:16"@, false, 2),
        r.changed@ == video_parameters("720p"@, 5, "16:9"@, true, 1),
        r.first@ == task_of(0, "offline-image-a"@, image_parameters()),
        r.second@ == task_of(0, "offline-image-b"@, image_parameters()),
        r.movie@ == task_of(1, "offline-video"@, r.video@),
        r.again@ == r.first@,
        r.removed@ == task_of(0, "removed-model"@, image_parameters()),
        r.bare@ == bare_task(absent@),
        views(r.references@) == seq![
            reference_name("1"@),
            reference_name("2"@),
            reference_name("3"@),
        ],
        r.item@ == distant_item(),
        models(r.picked@) == seq![picked_item("0"@, first@), picked_item("1"@, second@)],
        views(r.paths@) == seq![second@, first@],
        r.picture@ == first@,
{
    let r: Fixtures = Fixtures {
        models: vec![
            make_image_model("offline-image-a", false),
            make_image_model("offline-image-b", false),
            make_video_model(false),
        ],
        reordered: vec![
            make_video_model(true),
            make_image_model("offline-image-b", true),
            make_image_model("offline-image-a", true),
        ],
        image: make_image_parameters(),
        video: make_video_parameters("1080p", 10, "9:16", false, 2),
        changed: make_video_parameters("720p", 5, "16:9", true, 1),
        first: make_task(0, "offline-image-a", make_image_parameters()),
        second: make_task(0, "offline-image-b", make_image_parameters()),
        movie: make_task(
            1,
            "offline-video",
            make_video_parameters("1080p", 10, "9:16", false, 2),
        ),
        again: make_task(0, "offline-image-a", make_image_parameters()),
        removed: make_task(0, "removed-model", make_image_parameters()),
        bare: make_bare_task(absent),
        references: vec![cat("reference-", "1"), cat("reference-", "2"), cat("reference-", "3")],
        item: make_distant_item(),
        picked: vec![make_picked_item("0", first), make_picked_item("1", second)],
        paths: vec![second.to_owned(), first.to_owned()],
        picture: first.to_owned(),
    };
    r
}

} // verus!
