//! The picture that is drawn for a user at registration: where it is put before it is
//! stored, and what is written on it.

use vstd::prelude::*;
use vstd::slice::slice_subrange;
use vstd::string::StringExecFns;
use vstd::utf8::{decode_utf8, encode_utf8, valid_utf8};
use crate::text::read_text;

verus! {

/// The number of bytes of a username that are written on the picture.
pub const INITIALS_LEN: usize = 2;

/// The maker of pictures.
pub struct AvatarClient {}

/// The scratch file of the picture drawn under `key`.
pub open spec fn picture_path(key: Seq<char>) -> Seq<char> {
    "./tmp/"@ + key + ".png"@
}

/// Whether a username has initials: its first two bytes are there and are text by
/// themselves.
pub open spec fn has_initials(username: Seq<char>) -> bool {
    encode_utf8(username).len() >= INITIALS_LEN && valid_utf8(
        encode_utf8(username).subrange(0, INITIALS_LEN as int),
    )
}

impl AvatarClient {
    /// The scratch file of the picture drawn under `key`.
    pub fn path(key: &str) -> (path: String)
        ensures
            path@ == picture_path(key@),
    {
        let mut path = "./tmp/".to_owned();
        path.append(key);
        path.append(".png");
        path
    }

    /// What is written on the picture of a user: the first two bytes of the name, where
    /// they are text by themselves.
    pub fn initials(username: &str) -> (text: Option<String>)
        ensures
            match text {
                Some(t) => has_initials(username@) && t@ == decode_utf8(
                    encode_utf8(username@).subrange(0, INITIALS_LEN as int),
                ),
                None => !has_initials(username@),
            },
    {
        let bytes = username.as_bytes();
        if bytes.len() < INITIALS_LEN {
            return None;
        }
        match read_text(slice_subrange(bytes, 0, INITIALS_LEN)) {
            Some(text) => Some(text.to_owned()),
            None => None,
        }
    }
}

} // verus!
