use stampa::cloud::{CloudClient, ObjectStore};
use stampa::errors::AppErrorType;
use stampa::handlers::avatars::{create_avatar, AvatarUpload};
use stampa::ingest::{judge_image, prepare_upload, read_image, AvatarIngestionPipeline};
use stampa::models::{Project, User};
use stampa::oid::ObjectId;
use stampa::payload::{find_byte, split_payload, take_before, take_behind};
use stampa::state::AppState;
use stampa::utils::Claims;

fn id(n: u8) -> ObjectId {
    ObjectId::from_bytes([n, 0, 0, 0, 0, 0, 0, 0, 0, 0, 0, n])
}

fn png_bytes() -> Vec<u8> {
    let pixels = image::RgbImage::from_pixel(2, 2, image::Rgb([10, 20, 30]));
    let mut out = std::io::Cursor::new(Vec::new());
    image::DynamicImage::ImageRgb8(pixels)
        .write_to(&mut out, image::ImageOutputFormat::Png)
        .unwrap();
    out.into_inner()
}

fn png_payload() -> String {
    format!("data:image/png;base64,{}", base64::encode(png_bytes()))
}

/// Owner 1 is the one member of project 100, whose bucket exists.
fn project_with_bucket() -> (AppState, ObjectStore) {
    let mut app = AppState::new();
    app.users
        .create(User {
            id: id(1),
            username: "owner".to_string(),
            password: String::new(),
            avatar: String::new(),
            projects: vec![id(100)],
            invitations: Vec::new(),
        })
        .unwrap();
    app.users
        .create(User {
            id: id(2),
            username: "bob".to_string(),
            password: String::new(),
            avatar: String::new(),
            projects: Vec::new(),
            invitations: Vec::new(),
        })
        .unwrap();
    app.projects
        .create(Project {
            id: id(100),
            author: id(1),
            title: "P1".to_string(),
            api_key: "key".to_string(),
            api_secret: "secret".to_string(),
            region: "eu-west-3".to_string(),
            members: vec![id(1)],
            invitations: Vec::new(),
            avatars: Vec::new(),
        })
        .unwrap();
    let mut store = ObjectStore::new();
    CloudClient::create_bucket(&mut store, id(100).to_hex(), "eu-west-3".to_string()).unwrap();
    (app, store)
}

#[test]
fn a_png_is_taken_in_and_recorded_once() {
    let (mut app, mut store) = project_with_bucket();
    let before = app.projects.get_project(id(100)).unwrap().avatars.len();
    let avatar =
        AvatarIngestionPipeline::ingest(&mut app, &mut store, id(100), id(1), "logo", &png_payload())
            .unwrap();
    assert_eq!(avatar.mime_type, "png");
    assert_eq!(avatar.name, "logo");
    let p1 = app.projects.get_project(id(100)).unwrap();
    assert_eq!(p1.avatars.len(), before + 1);
    assert_eq!(p1.avatars[0].id, avatar.id);
    assert_eq!(p1.avatars[0].url, avatar.url);
    assert_eq!(p1.avatars[0].mime_type, "png");
    assert_eq!(store.writes(), 1);
    let key = format!("{}.png", avatar.id.to_hex());
    assert_eq!(
        avatar.url,
        format!("https://640000000000000000000064.s3.eu-west-3.amazonaws.com/{}", key)
    );
    let client = CloudClient::new(id(100).to_hex(), "eu-west-3".to_string()).unwrap();
    assert_eq!(client.get_object(&store, &key).unwrap(), png_bytes());
}

#[test]
fn a_given_identifier_names_the_object_and_the_record() {
    let (mut app, mut store) = project_with_bucket();
    let avatar = AvatarIngestionPipeline::ingest_as(
        &mut app,
        &mut store,
        id(7),
        id(100),
        id(1),
        "logo",
        &png_payload(),
    )
    .unwrap();
    assert_eq!(avatar.id, id(7));
    assert_eq!(
        avatar.url,
        "https://640000000000000000000064.s3.eu-west-3.amazonaws.com/070000000000000000000007.png"
    );
    // A second avatar goes behind the first.
    let second = AvatarIngestionPipeline::ingest_as(
        &mut app,
        &mut store,
        id(8),
        id(100),
        id(1),
        "badge",
        &png_payload(),
    )
    .unwrap();
    let p1 = app.projects.get_project(id(100)).unwrap();
    assert_eq!(p1.avatars.len(), 2);
    assert_eq!(p1.avatars[0].id, id(7));
    assert_eq!(p1.avatars[1].id, second.id);
    assert_eq!(p1.avatars[1].name, "badge");
    assert_eq!(store.writes(), 2);
}

#[test]
fn a_payload_without_a_comma_is_refused_and_nothing_is_written() {
    let (mut app, mut store) = project_with_bucket();
    let payload = format!("data:image/png;base64{}", base64::encode(png_bytes()));
    let e = AvatarIngestionPipeline::ingest(&mut app, &mut store, id(100), id(1), "logo", &payload)
        .unwrap_err();
    assert_eq!(e.error_type, AppErrorType::DecodeError);
    assert_eq!(e.message(), "The image has no comma between its heading and its data");
    assert_eq!(e.status_code(), 400);
    assert_eq!(store.writes(), 0);
    assert!(app.projects.get_project(id(100)).unwrap().avatars.is_empty());
}

#[test]
fn a_media_type_without_a_slash_is_refused() {
    let (mut app, mut store) = project_with_bucket();
    let payload = format!("data:png;base64,{}", base64::encode(png_bytes()));
    let e = AvatarIngestionPipeline::ingest(&mut app, &mut store, id(100), id(1), "logo", &payload)
        .unwrap_err();
    assert_eq!(e.error_type, AppErrorType::DecodeError);
    assert_eq!(e.message(), "The image names no media subtype");
    assert_eq!(store.writes(), 0);
}

#[test]
fn data_that_is_not_base64_is_refused() {
    let (mut app, mut store) = project_with_bucket();
    let e = AvatarIngestionPipeline::ingest(
        &mut app,
        &mut store,
        id(100),
        id(1),
        "logo",
        "data:image/png;base64,@@@not base64@@@",
    )
    .unwrap_err();
    assert_eq!(e.error_type, AppErrorType::DecodeError);
    assert_eq!(e.message(), "The data of the image is not base64");
    assert_eq!(store.writes(), 0);
    assert!(app.projects.get_project(id(100)).unwrap().avatars.is_empty());
}

#[test]
fn data_that_is_not_an_image_is_refused_whatever_it_declares() {
    let (mut app, mut store) = project_with_bucket();
    let payload = format!("data:image/png;base64,{}", base64::encode(b"just some text"));
    let e = AvatarIngestionPipeline::ingest(&mut app, &mut store, id(100), id(1), "logo", &payload)
        .unwrap_err();
    assert_eq!(e.error_type, AppErrorType::DecodeError);
    assert_eq!(e.message(), "The data is not an image that can be read");
    assert_eq!(store.writes(), 0);
}

#[test]
fn the_declared_subtype_is_kept_even_where_the_data_is_of_another_kind() {
    let (mut app, mut store) = project_with_bucket();
    let payload = format!("data:image/jpeg;base64,{}", base64::encode(png_bytes()));
    let avatar = AvatarIngestionPipeline::ingest_as(
        &mut app,
        &mut store,
        id(7),
        id(100),
        id(1),
        "logo",
        &payload,
    )
    .unwrap();
    assert_eq!(avatar.mime_type, "jpeg");
    assert!(avatar.url.ends_with("/070000000000000000000007.jpeg"));
}

#[test]
fn only_a_member_can_add_an_avatar() {
    let (mut app, mut store) = project_with_bucket();
    let e = AvatarIngestionPipeline::ingest(&mut app, &mut store, id(100), id(2), "logo", &png_payload())
        .unwrap_err();
    assert_eq!(e.error_type, AppErrorType::NotInProject);
    assert_eq!(store.writes(), 0);
    // The membership is looked at before the image is.
    let e = AvatarIngestionPipeline::ingest(&mut app, &mut store, id(100), id(2), "logo", "nothing")
        .unwrap_err();
    assert_eq!(e.error_type, AppErrorType::NotInProject);
}

#[test]
fn an_avatar_for_a_project_without_a_record_is_not_found() {
    let mut app = AppState::new();
    app.users
        .create(User {
            id: id(1),
            username: "owner".to_string(),
            password: String::new(),
            avatar: String::new(),
            projects: vec![id(100)],
            invitations: Vec::new(),
        })
        .unwrap();
    let mut store = ObjectStore::new();
    let e = AvatarIngestionPipeline::ingest(&mut app, &mut store, id(100), id(1), "logo", &png_payload())
        .unwrap_err();
    assert_eq!(e.error_type, AppErrorType::NotFoundError);
    assert_eq!(store.writes(), 0);
}

#[test]
fn an_avatar_for_a_project_without_a_bucket_is_not_recorded() {
    let (mut app, _) = project_with_bucket();
    let mut empty = ObjectStore::new();
    let e = AvatarIngestionPipeline::ingest(&mut app, &mut empty, id(100), id(1), "logo", &png_payload())
        .unwrap_err();
    assert_eq!(e.error_type, AppErrorType::S3Error);
    assert_eq!(e.message(), "Internal error");
    assert_eq!(e.cause.as_deref(), Some("The bucket does not exist."));
    assert_eq!(empty.writes(), 0);
    assert!(app.projects.get_project(id(100)).unwrap().avatars.is_empty());
}

#[test]
fn an_upload_is_worked_out_without_a_store() {
    let upload = prepare_upload(id(7), id(100), "us-east-1", "logo", &png_payload()).unwrap();
    assert_eq!(upload.key, "070000000000000000000007.png");
    assert_eq!(upload.client.bucket_name, "640000000000000000000064");
    assert_eq!(upload.client.region, "us-east-1");
    assert_eq!(upload.body, png_bytes());
    assert_eq!(upload.avatar.id, id(7));
    assert_eq!(upload.avatar.name, "logo");
    assert_eq!(upload.avatar.mime_type, "png");
    assert_eq!(
        upload.avatar.url,
        "https://640000000000000000000064.s3.us-east-1.amazonaws.com/070000000000000000000007.png"
    );
}

#[test]
fn an_upload_to_an_unknown_region_is_refused_after_the_image_is_read() {
    let e = prepare_upload(id(7), id(100), "atlantis-1", "logo", &png_payload()).unwrap_err();
    assert_eq!(e.error_type, AppErrorType::S3Error);
    assert_eq!(e.cause.as_deref(), Some("Can not load region."));
    let e = prepare_upload(id(7), id(100), "atlantis-1", "logo", "no comma").unwrap_err();
    assert_eq!(e.error_type, AppErrorType::DecodeError);
}

#[test]
fn an_image_is_read_from_its_wire_form() {
    let decoded = read_image(&png_payload()).unwrap();
    assert_eq!(decoded.subtype, "png");
    assert_eq!(decoded.bytes, png_bytes());
    assert_ne!(decoded.bytes, base64::encode(png_bytes()).into_bytes());
    // What stands behind a second comma is not read.
    let decoded = read_image(&format!("{},trailer", png_payload())).unwrap();
    assert_eq!(decoded.bytes, png_bytes());
    // Nothing is asked of the start of the heading or of what follows the semicolon.
    let payload = format!("x/gif/more;anything,{}", base64::encode(png_bytes()));
    assert_eq!(read_image(&payload).unwrap().subtype, "gif");
    // A subtype that is not plain ASCII is text all the same.
    let payload = format!("data:image/p\u{f1}g,{}", base64::encode(png_bytes()));
    assert_eq!(read_image(&payload).unwrap().subtype, "p\u{f1}g");
    assert_eq!(read_image("data:image/png;base64,").unwrap_err().error_type, AppErrorType::DecodeError);
    assert_eq!(read_image("").unwrap_err().error_type, AppErrorType::DecodeError);
}

#[test]
fn an_image_is_judged_by_what_became_of_its_parts() {
    let judged = judge_image(Some("png".to_string()), Some(vec![1, 2, 3]), true).unwrap();
    assert_eq!(judged.subtype, "png");
    assert_eq!(judged.bytes, vec![1, 2, 3]);
    let e = judge_image(None, Some(vec![1]), true).unwrap_err();
    assert_eq!(e.message(), "The media subtype of the image is not text");
    let e = judge_image(Some("png".to_string()), None, false).unwrap_err();
    assert_eq!(e.message(), "The data of the image is not base64");
    let e = judge_image(Some("png".to_string()), Some(vec![1]), false).unwrap_err();
    assert_eq!(e.message(), "The data is not an image that can be read");
    assert_eq!(e.error_type, AppErrorType::DecodeError);
    // The subtype is looked at first.
    let e = judge_image(None, None, false).unwrap_err();
    assert_eq!(e.message(), "The media subtype of the image is not text");
}

#[test]
fn a_payload_is_parted_at_its_first_marks() {
    let parts = split_payload(b"data:image/png;base64,QUJD").unwrap();
    assert_eq!(parts.subtype, b"png".to_vec());
    assert_eq!(parts.body, b"QUJD".to_vec());
    let parts = split_payload(b"a/b/c;d/e,f,g,h").unwrap();
    assert_eq!(parts.subtype, b"b".to_vec());
    assert_eq!(parts.body, b"f".to_vec());
    let parts = split_payload(b"a/,").unwrap();
    assert!(parts.subtype.is_empty());
    assert!(parts.body.is_empty());
    // A slash behind the semicolon, or behind the comma, is not the slash of the type.
    assert_eq!(split_payload(b"image;x/y,QUJD").unwrap_err().message(), "The image names no media subtype");
    assert_eq!(split_payload(b"image,a/b").unwrap_err().message(), "The image names no media subtype");
    // The comma is looked for first.
    assert_eq!(
        split_payload(b"image").unwrap_err().message(),
        "The image has no comma between its heading and its data"
    );
    assert_eq!(split_payload(b"").unwrap_err().error_type, AppErrorType::DecodeError);
}

#[test]
fn the_first_place_of_a_byte() {
    assert_eq!(find_byte(b"a,b,c", b','), 1);
    assert_eq!(find_byte(b",", b','), 0);
    assert_eq!(find_byte(b"abc", b','), 3);
    assert_eq!(find_byte(b"", b','), 0);
    assert_eq!(take_before(b"a,b,c", b','), b"a");
    assert_eq!(take_before(b"abc", b','), b"abc");
    assert_eq!(take_behind(b"a,b,c", b','), Some(&b"b,c"[..]));
    assert_eq!(take_behind(b"a,", b','), Some(&b""[..]));
    assert_eq!(take_behind(b"abc", b','), None);
}

#[test]
fn the_handler_reads_the_project_from_its_text() {
    let (mut app, mut store) = project_with_bucket();
    let claims = Claims::issued_at(id(1), 0);
    let upload = AvatarUpload {
        name: "logo".to_string(),
        project: "640000000000000000000064".to_string(),
        image: png_payload(),
    };
    let avatar = create_avatar(&upload, &mut app, &mut store, &claims).unwrap();
    assert_eq!(avatar.mime_type, "png");
    assert_eq!(app.projects.get_project(id(100)).unwrap().avatars.len(), 1);

    let upload = AvatarUpload {
        name: "logo".to_string(),
        project: "not an identifier".to_string(),
        image: png_payload(),
    };
    let e = create_avatar(&upload, &mut app, &mut store, &claims).unwrap_err();
    assert_eq!(e.error_type, AppErrorType::DbError);
    assert_eq!(e.message(), "An internal error occured");
    assert_eq!(store.writes(), 1);
}
