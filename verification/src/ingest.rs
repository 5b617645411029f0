//! Taking in an avatar: the image is read from its wire form, decoded and checked before
//! anything is written; then it is put into the bucket of its project, and last recorded
//! on the project.

use vstd::prelude::*;
use vstd::string::StringExecFns;
use vstd::utf8::{decode_utf8, valid_utf8};
use vstd::utf8::encode_utf8;
use crate::cloud::{aws_region_known, object_url, region_refused_cause, s3_failure};
use crate::cloud::{no_bucket_cause, CloudClient, CloudClientView, ObjectStore, ObjectStoreView};
use crate::cloud::StoredObjectView;
use crate::errors::{AppError, AppErrorView};
use crate::failures::{not_found, not_in_project};
use crate::models::{Avatar, AvatarView};
use crate::oid::{hex_text, ObjectId};
use crate::payload::{decode_failure, no_comma_message, no_subtype_message};
use crate::payload::{payload_body, payload_subtype, split_payload};
use crate::repositories::projects::project_add_avatar;
use crate::repositories::users::user_in_project;
use crate::state::{same_order, AppState, StateView};
use crate::text::read_text;

verus! {

/// What `base64::decode` makes of `body`: the bytes that it stands for in the standard
/// alphabet with padding, or nothing where it is not such an encoding.
pub uninterp spec fn base64_decoded(body: Seq<u8>) -> Option<Seq<u8>>;

/// Whether `image::load_from_memory` reads `bytes` as an image.
pub uninterp spec fn image_readable(bytes: Seq<u8>) -> bool;

/// Decodes with `base64::decode`, which reads the standard alphabet with padding and
/// refuses any other input.
#[verifier::external_body]
fn decode_base64(body: &[u8]) -> (decoded: Option<Vec<u8>>)
    ensures
        match decoded {
            Some(bytes) => base64_decoded(body@) == Some(bytes@),
            None => base64_decoded(body@) is None,
        },
{
    base64::decode(body).ok()
}

/// Asks `image::load_from_memory` whether it can read the bytes: it picks a format by
/// the first bytes and then decodes the whole image.
#[verifier::external_body]
fn loads_as_image(bytes: &[u8]) -> (readable: bool)
    ensures
        readable == image_readable(bytes@),
{
    image::load_from_memory(bytes).is_ok()
}

/// What is said of a payload whose subtype is not text.
pub open spec fn subtype_not_text_message() -> Seq<char> {
    "The media subtype of the image is not text"@
}

/// What is said of a payload whose data is not base64.
pub open spec fn not_base64_message() -> Seq<char> {
    "The data of the image is not base64"@
}

/// What is said of a payload whose decoded data is no image.
pub open spec fn not_an_image_message() -> Seq<char> {
    "The data is not an image that can be read"@
}

/// An image as taken from its wire form: the subtype it declares and its bytes.
#[derive(Debug)]
pub struct DecodedImage {
    pub subtype: String,
    pub bytes: Vec<u8>,
}

/// Why an image is refused, if it is, given what became of its parts: the subtype read
/// as text, the data decoded, and whether the decoded data can be read as an image.
pub open spec fn parts_fault(
    subtype: Option<Seq<char>>,
    decoded: Option<Seq<u8>>,
    readable: bool,
) -> Option<Seq<char>> {
    if subtype is None {
        Some(subtype_not_text_message())
    } else if decoded is None {
        Some(not_base64_message())
    } else if !readable {
        Some(not_an_image_message())
    } else {
        None
    }
}

/// The declared subtype of a payload as text, where it has one and it is text.
pub open spec fn subtype_text(wire: Seq<u8>) -> Option<Seq<char>> {
    match payload_subtype(wire) {
        Some(subtype) => if valid_utf8(subtype) {
            Some(decode_utf8(subtype))
        } else {
            None
        },
        None => None,
    }
}

/// The decoded data of a payload, where it has data and the data is base64.
pub open spec fn image_bytes(wire: Seq<u8>) -> Option<Seq<u8>> {
    match payload_body(wire) {
        Some(body) => base64_decoded(body),
        None => None,
    }
}

/// Why a payload is refused, if it is: it has no comma, it names no subtype, the subtype
/// is not text, the data is not base64, or the decoded data cannot be read as an image,
/// whatever type the payload declares.
pub open spec fn image_fault(wire: Seq<u8>) -> Option<Seq<char>> {
    if payload_body(wire) is None {
        Some(no_comma_message())
    } else if payload_subtype(wire) is None {
        Some(no_subtype_message())
    } else {
        parts_fault(
            subtype_text(wire),
            image_bytes(wire),
            image_bytes(wire) is Some && image_readable(image_bytes(wire)->0),
        )
    }
}

/// Passes an image on, or refuses it, given what became of its parts.
pub fn judge_image(subtype: Option<String>, decoded: Option<Vec<u8>>, readable: bool) -> (judged: Result<
    DecodedImage,
    AppError,
>)
    ensures
        match parts_fault(
            match subtype {
                Some(t) => Some(t@),
                None => None,
            },
            match decoded {
                Some(b) => Some(b@),
                None => None,
            },
            readable,
        ) {
            Some(why) => judged matches Err(e) && e@ == decode_failure(why),
            None => judged matches Ok(image) && image.subtype@ == subtype->0@ && image.bytes@
                == decoded->0@,
        },
{
    let subtype = match subtype {
        Some(subtype) => subtype,
        None => {
            return Err(AppError::decode_error("The media subtype of the image is not text"));
        },
    };
    let bytes = match decoded {
        Some(bytes) => bytes,
        None => {
            return Err(AppError::decode_error("The data of the image is not base64"));
        },
    };
    if !readable {
        return Err(AppError::decode_error("The data is not an image that can be read"));
    }
    Ok(DecodedImage { subtype, bytes })
}

/// Reads an image from its wire form.
pub fn read_image(image: &str) -> (read: Result<DecodedImage, AppError>)
    ensures
        match image_fault(encode_utf8(image@)) {
            Some(why) => read matches Err(e) && e@ == decode_failure(why),
            None => read matches Ok(decoded) && Some(decoded.subtype@) == subtype_text(
                encode_utf8(image@),
            ) && Some(decoded.bytes@) == image_bytes(encode_utf8(image@)),
        },
{
    let parts = match split_payload(image.as_bytes()) {
        Ok(parts) => parts,
        Err(e) => {
            return Err(e);
        },
    };
    let decoded = decode_base64(parts.body.as_slice());
    let readable = match &decoded {
        Some(bytes) => loads_as_image(bytes.as_slice()),
        None => false,
    };
    let subtype = match read_text(parts.subtype.as_slice()) {
        Some(text) => Some(text.to_owned()),
        None => None,
    };
    judge_image(subtype, decoded, readable)
}

/// The key under which an avatar is stored: its identifier, a dot, and its subtype.
pub open spec fn avatar_key(avatar_id: ObjectId, subtype: Seq<char>) -> Seq<char> {
    hex_text(avatar_id.bytes@) + "."@ + subtype
}

/// What is to be written for an avatar: the bytes, the bucket and the key to put them
/// under, and the record to append to the project once they are there.
#[derive(Debug)]
pub struct Upload {
    pub client: CloudClient,
    pub key: String,
    pub body: Vec<u8>,
    pub avatar: Avatar,
}

/// Why nothing is to be written for an image, if that is so: the image is refused, or
/// the region of the project is not known.
pub open spec fn upload_fault(region: Seq<char>, wire: Seq<u8>) -> Option<AppErrorView> {
    match image_fault(wire) {
        Some(why) => Some(decode_failure(why)),
        None => if aws_region_known(region) {
            None
        } else {
            Some(s3_failure(region_refused_cause()))
        },
    }
}

/// The record of the avatar made from a payload.
pub open spec fn avatar_of(
    avatar_id: ObjectId,
    project_id: ObjectId,
    region: Seq<char>,
    name: Seq<char>,
    wire: Seq<u8>,
) -> AvatarView {
    AvatarView {
        id: avatar_id,
        name,
        mime_type: subtype_text(wire)->0,
        url: object_url(
            hex_text(project_id.bytes@),
            region,
            avatar_key(avatar_id, subtype_text(wire)->0),
        ),
    }
}

/// Works out what is to be written for an avatar of a project, without writing anything.
/// The bucket of a project goes by the project's identifier.
pub fn prepare_upload(
    avatar_id: ObjectId,
    project_id: ObjectId,
    region: &str,
    name: &str,
    image: &str,
) -> (prepared: Result<Upload, AppError>)
    ensures
        match upload_fault(region@, encode_utf8(image@)) {
            Some(why) => prepared matches Err(e) && e@ == why,
            None => prepared matches Ok(upload) && upload.client@ == (CloudClientView {
                bucket_name: hex_text(project_id.bytes@),
                region: region@,
            }) && upload.key@ == avatar_key(avatar_id, subtype_text(encode_utf8(image@))->0)
                && Some(upload.body@) == image_bytes(encode_utf8(image@)) && upload.avatar@
                == avatar_of(avatar_id, project_id, region@, name@, encode_utf8(image@)),
        },
{
    let decoded = match read_image(image) {
        Ok(decoded) => decoded,
        Err(e) => {
            return Err(e);
        },
    };
    let client = match CloudClient::new(project_id.to_hex(), region.to_owned()) {
        Ok(client) => client,
        Err(e) => {
            return Err(e);
        },
    };
    let mut key = avatar_id.to_hex();
    key.append(".");
    key.append(decoded.subtype.as_str());
    let avatar = Avatar {
        id: avatar_id,
        name: name.to_owned(),
        mime_type: decoded.subtype,
        url: client.url(key.as_str()),
    };
    Ok(Upload { client, key, body: decoded.bytes, avatar })
}

/// Why an avatar is not taken in, if it is not: the requester is not a member of the
/// project, the project is not on record, the image is refused, the region of the
/// project is not known, or the project has no bucket.
pub open spec fn ingest_failure(
    s: StateView,
    store: ObjectStoreView,
    project: ObjectId,
    requester: ObjectId,
    wire: Seq<u8>,
) -> Option<AppErrorView> {
    if !user_in_project(s.users, requester, project) {
        Some(not_in_project(requester))
    } else if !s.projects.contains_key(project) {
        Some(not_found(project))
    } else if upload_fault(s.projects[project].region, wire) is Some {
        upload_fault(s.projects[project].region, wire)
    } else if !store.has_bucket(hex_text(project.bytes@)) {
        Some(s3_failure(no_bucket_cause()))
    } else {
        None
    }
}

/// The pipeline that takes in avatars.
pub struct AvatarIngestionPipeline {}

impl AvatarIngestionPipeline {
    /// Takes in an avatar for a project under an identifier made for it.
    pub fn ingest(
        app: &mut AppState,
        store: &mut ObjectStore,
        project_id: ObjectId,
        requester_id: ObjectId,
        name: &str,
        image: &str,
    ) -> (taken: Result<Avatar, AppError>)
        requires
            old(app).wf(),
        ensures
            final(app).wf(),
            same_order(*final(app), *old(app)),
            final(app)@.users == old(app)@.users,
            final(store)@.buckets == old(store)@.buckets,
            match ingest_failure(
                old(app)@,
                old(store)@,
                project_id,
                requester_id,
                encode_utf8(image@),
            ) {
                Some(why) => taken matches Err(e) && e@ == why && final(app)@ == old(app)@
                    && final(store)@ == old(store)@,
                None => taken matches Ok(avatar) && avatar@ == avatar_of(
                    avatar.id,
                    project_id,
                    old(app)@.projects[project_id].region,
                    name@,
                    encode_utf8(image@),
                ) && final(app)@.projects == project_add_avatar(
                    old(app)@.projects,
                    project_id,
                    avatar@,
                ) && final(store)@.objects == old(store)@.objects.push(
                    StoredObjectView {
                        bucket: hex_text(project_id.bytes@),
                        key: avatar_key(avatar.id, avatar@.mime_type),
                        body: image_bytes(encode_utf8(image@))->0,
                    },
                ),
            },
    {
        let avatar_id = ObjectId::new();
        AvatarIngestionPipeline::ingest_as(
            app,
            store,
            avatar_id,
            project_id,
            requester_id,
            name,
            image,
        )
    }

    /// Takes in an avatar for a project under the identifier `avatar_id`: checks that the
    /// requester is a member, reads and checks the image, puts its bytes into the bucket
    /// of the project, and appends the record to the project. Whatever fails, fails before
    /// anything is written.
    pub fn ingest_as(
        app: &mut AppState,
        store: &mut ObjectStore,
        avatar_id: ObjectId,
        project_id: ObjectId,
        requester_id: ObjectId,
        name: &str,
        image: &str,
    ) -> (taken: Result<Avatar, AppError>)
        requires
            old(app).wf(),
        ensures
            final(app).wf(),
            same_order(*final(app), *old(app)),
            final(app)@.users == old(app)@.users,
            final(store)@.buckets == old(store)@.buckets,
            match ingest_failure(
                old(app)@,
                old(store)@,
                project_id,
                requester_id,
                encode_utf8(image@),
            ) {
                Some(why) => taken matches Err(e) && e@ == why && final(app)@ == old(app)@
                    && final(store)@ == old(store)@,
                None => taken matches Ok(avatar) && avatar@ == avatar_of(
                    avatar_id,
                    project_id,
                    old(app)@.projects[project_id].region,
                    name@,
                    encode_utf8(image@),
                ) && final(app)@.projects == project_add_avatar(
                    old(app)@.projects,
                    project_id,
                    avatar@,
                ) && final(store)@.objects == old(store)@.objects.push(
                    StoredObjectView {
                        bucket: hex_text(project_id.bytes@),
                        key: avatar_key(avatar_id, avatar@.mime_type),
                        body: image_bytes(encode_utf8(image@))->0,
                    },
                ),
            },
    {
        match app.users.in_project(requester_id, project_id) {
            Ok(()) => {},
            Err(e) => {
                return Err(e);
            },
        }
        let project = match app.projects.get_project(project_id) {
            Ok(project) => project,
            Err(e) => {
                return Err(e);
            },
        };
        let upload = match prepare_upload(
            avatar_id,
            project_id,
            project.region.as_str(),
            name,
            image,
        ) {
            Ok(upload) => upload,
            Err(e) => {
                return Err(e);
            },
        };
        match upload.client.put_object(store, upload.body, upload.key.as_str()) {
            Ok(_) => {},
            Err(e) => {
                return Err(e);
            },
        }
        let avatar = upload.avatar;
        match app.projects.add_avatar(project_id, avatar.clone()) {
            Ok(()) => Ok(avatar),
            Err(e) => Err(e),
        }
    }
}

} // verus!
