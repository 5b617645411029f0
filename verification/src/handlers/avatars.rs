//! Requests that add an avatar to a project.

use vstd::prelude::*;
use vstd::utf8::encode_utf8;
use crate::cloud::{ObjectStore, StoredObjectView};
use crate::errors::AppError;
use crate::ingest::{avatar_key, avatar_of, image_bytes, ingest_failure, AvatarIngestionPipeline};
use crate::models::Avatar;
use crate::oid::{bad_id, hex_text, text_id, ObjectId};
use crate::repositories::projects::project_add_avatar;
use crate::state::{same_order, AppState};
use crate::utils::Claims;

verus! {

/// An avatar as it is sent in: a name to show, the project as hexadecimal text, and the
/// image as `data:<type>/<subtype>;base64,<data>`.
#[derive(Debug)]
pub struct AvatarUpload {
    pub name: String,
    pub project: String,
    pub image: String,
}

/// Takes in an avatar for the project it names, on behalf of the bearer. A project that
/// is not named by an identifier is refused before anything else is looked at.
pub fn create_avatar(
    avatar: &AvatarUpload,
    app: &mut AppState,
    store: &mut ObjectStore,
    claims: &Claims,
) -> (taken: Result<Avatar, AppError>)
    requires
        old(app).wf(),
    ensures
        final(app).wf(),
        same_order(*final(app), *old(app)),
        final(app)@.users == old(app)@.users,
        final(store)@.buckets == old(store)@.buckets,
        match text_id(avatar.project@) {
            None => taken matches Err(e) && e@ == bad_id(avatar.project@) && final(app)@ == old(
                app,
            )@ && final(store)@ == old(store)@,
            Some(project) => match ingest_failure(
                old(app)@,
                old(store)@,
                project,
                claims.id,
                encode_utf8(avatar.image@),
            ) {
                Some(why) => taken matches Err(e) && e@ == why && final(app)@ == old(app)@
                    && final(store)@ == old(store)@,
                None => taken matches Ok(made) && made@ == avatar_of(
                    made.id,
                    project,
                    old(app)@.projects[project].region,
                    avatar.name@,
                    encode_utf8(avatar.image@),
                ) && final(app)@.projects == project_add_avatar(old(app)@.projects, project, made@)
                    && final(store)@.objects == old(store)@.objects.push(
                    StoredObjectView {
                        bucket: hex_text(project.bytes@),
                        key: avatar_key(made.id, made@.mime_type),
                        body: image_bytes(encode_utf8(avatar.image@))->0,
                    },
                ),
            },
        },
{
    let project_id = match ObjectId::parse_str(avatar.project.as_str()) {
        Ok(id) => id,
        Err(e) => {
            return Err(e);
        },
    };
    AvatarIngestionPipeline::ingest(
        app,
        store,
        project_id,
        claims.id,
        avatar.name.as_str(),
        avatar.image.as_str(),
    )
}

} // verus!
